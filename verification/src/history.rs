//! A tab's navigation history: the locations visited, where each was
//! scrolled to when it was left, and the way back and forth through them.

use crate::location::{
    location_eq, normal_network, normalized, path_of, probed, with_trailing_sep, Location, LocationView, PathFacts,
};
use crate::paths::{path_eq, path_strip_prefix, same_path};
use crate::text::str_eq;
use vstd::prelude::*;

verus! {

/// A tab's location and its history. `S` is a scroll offset.
pub struct History<S> {
    /// Where the tab is now, in normal form.
    location: Location,
    /// The locations visited, oldest first.
    entries: Vec<Location>,
    /// The scroll offset of each entry when it was left.
    scrolls: Vec<Option<S>>,
    /// Which entry is the current one.
    index: usize,
    /// The current scroll offset.
    scroll: Option<S>,
    /// An offset to apply once the items of a restored entry are in.
    pending_scroll: Option<S>,
}

impl<S: Copy> History<S> {
    /// Where the tab is now.
    pub closed spec fn loc(&self) -> Location {
        self.location
    }

    /// The current scroll offset.
    pub closed spec fn scroll_spec(&self) -> Option<S> {
        self.scroll
    }

    /// The offset waiting to be applied.
    pub closed spec fn pending_spec(&self) -> Option<S> {
        self.pending_scroll
    }

    /// Where the tab is now.
    pub fn location(&self) -> (r: &Location)
        ensures
            *r == self.loc(),
    {
        &self.location
    }

    /// The current scroll offset.
    pub fn scroll(&self) -> (r: Option<S>)
        ensures
            r == self.scroll_spec(),
    {
        self.scroll
    }

    /// Record that the tab was scrolled to `offset`.
    pub fn set_scroll(&mut self, offset: Option<S>)
        ensures
            final(self).scroll_spec() == offset,
            final(self).loc() == old(self).loc(),
            final(self).entries() == old(self).entries(),
            final(self).scrolls() == old(self).scrolls(),
            final(self).index() == old(self).index(),
            final(self).pending_spec() == old(self).pending_spec(),
            final(self).wf() == old(self).wf(),
    {
        self.scroll = offset;
    }

    /// Take the offset waiting to be applied, once the items are in.
    pub fn take_pending_scroll(&mut self) -> (r: Option<S>)
        ensures
            r == old(self).pending_spec(),
            final(self).pending_spec() is None,
            final(self).scroll_spec() == old(self).scroll_spec(),
            final(self).loc() == old(self).loc(),
            final(self).entries() == old(self).entries(),
            final(self).scrolls() == old(self).scrolls(),
            final(self).index() == old(self).index(),
            final(self).wf() == old(self).wf(),
    {
        let r = self.pending_scroll;
        self.pending_scroll = None;
        r
    }

    /// The locations visited, oldest first.
    pub closed spec fn entries(&self) -> Seq<LocationView> {
        self.entries@.map_values(|l: Location| l@)
    }

    /// The saved scroll offsets, one per entry.
    pub closed spec fn scrolls(&self) -> Seq<Option<S>> {
        self.scrolls@
    }

    /// Which entry is the current one.
    pub closed spec fn index(&self) -> usize {
        self.index
    }

    /// There is an entry, and a saved offset for each entry.
    pub closed spec fn wf(&self) -> bool {
        &&& self.entries@.len() >= 1
        &&& self.entries@.len() == self.scrolls@.len()
    }

    /// A history holding only `start`, which `location` is the normal form of.
    pub fn new(location: Location, start: Location) -> (r: Self)
        ensures
            r.wf(),
            r.loc() == location,
            r.entries() == seq![start@],
            r.scrolls() == seq![None::<S>],
            r.index() == 0,
            r.scroll_spec() is None,
            r.pending_spec() is None,
    {
        let mut entries: Vec<Location> = Vec::new();
        entries.push(start);
        let mut scrolls: Vec<Option<S>> = Vec::new();
        scrolls.push(None);
        let r = History { location, entries, scrolls, index: 0, scroll: None, pending_scroll: None };
        assert(r.entries() =~= seq![r.entries@[0]@]);
        r
    }

    /// The number of entries.
    pub fn len(&self) -> (r: usize)
        ensures
            r == self.entries().len(),
    {
        self.entries.len()
    }

    /// The current entry's position.
    pub fn current_index(&self) -> (r: usize)
        ensures
            r == self.index(),
    {
        self.index
    }

    /// The entry at `i`.
    pub fn entry(&self, i: usize) -> (r: Option<&Location>)
        ensures
            match r {
                Some(l) => i < self.entries().len() && l@ == self.entries()[i as int],
                None => i >= self.entries().len(),
            },
    {
        if i < self.entries.len() {
            Some(&self.entries[i])
        } else {
            None
        }
    }
}

/// Where going forward leads from entry `index` of `entries`: the next
/// entry and its position, if there is one.
pub open spec fn next_target(entries: Seq<LocationView>, index: usize) -> Option<(LocationView, usize)> {
    if index < usize::MAX && index + 1 < entries.len() {
        Some((entries[index + 1], (index + 1) as usize))
    } else {
        None
    }
}

/// Where going back leads from entry `index` of `entries`: the previous
/// entry and its position, if there is one.
pub open spec fn previous_target(entries: Seq<LocationView>, index: usize) -> Option<
    (LocationView, usize),
> {
    if index >= 1 && index - 1 < entries.len() {
        Some((entries[index - 1], (index - 1) as usize))
    } else {
        None
    }
}

/// An optional target as characters.
pub open spec fn target_view(t: Option<(Location, usize)>) -> Option<(LocationView, usize)> {
    match t {
        Some((l, i)) => Some((l@, i)),
        None => None,
    }
}

/// Whether `last` and `next` are the same place, so that visiting `next`
/// right after `last` replaces it rather than adding an entry: two shares
/// with one URI, or two locations with the same path.
pub open spec fn same_place(last: LocationView, next: LocationView) -> bool {
    match (last, next) {
        (LocationView::Network(a, ..), LocationView::Network(b, ..)) => a == b,
        _ => match (last, next) {
            (LocationView::Network(..), LocationView::Network(..)) => false,
            _ => match (path_of(last), path_of(next)) {
                (Some(a), Some(b)) => path_eq(a, b),
                _ => false,
            },
        },
    }
}

/// The entries after visiting `location` from entry `index` of `entries`:
/// everything past the current entry is dropped, the current one too when
/// it is the same place, and `location` is added.
pub open spec fn visited(entries: Seq<LocationView>, index: usize, location: LocationView) -> Seq<
    LocationView,
> {
    let kept = if index + 1 < entries.len() {
        entries.take(index + 1)
    } else {
        entries
    };
    let kept = if kept.len() > 0 && same_place(kept.last(), location) {
        kept.drop_last()
    } else {
        kept
    };
    kept.push(location)
}

fn same_place_exec(last: &Location, next: &Location) -> (r: bool)
    ensures
        r == same_place(last@, next@),
{
    if let (Location::Network(a, ..), Location::Network(b, ..)) = (last, next) {
        return str_eq(a.as_str(), b.as_str());
    }
    match (last.path_opt(), next.path_opt()) {
        (Some(a), Some(b)) => same_path(a.as_str(), b.as_str()),
        _ => false,
    }
}

impl<S: Copy> History<S> {
    /// Where going forward leads: the next entry and its position.
    pub fn go_next(&self) -> (r: Option<(Location, usize)>)
        ensures
            target_view(r) == next_target(self.entries(), self.index()),
    {
        if self.index < usize::MAX && self.index + 1 < self.entries.len() {
            Some((self.entries[self.index + 1].clone(), self.index + 1))
        } else {
            None
        }
    }

    /// Where going back leads: the previous entry and its position.
    pub fn go_previous(&self) -> (r: Option<(Location, usize)>)
        ensures
            target_view(r) == previous_target(self.entries(), self.index()),
    {
        if self.index >= 1 && self.index - 1 < self.entries.len() {
            Some((self.entries[self.index - 1].clone(), self.index - 1))
        } else {
            None
        }
    }

    /// Move the tab to `location`. With `history_i_opt`, this is a step
    /// through the history to that entry, whose saved scroll offset is
    /// restored; without it, a new visit: later entries are dropped, a
    /// current entry at the same place is replaced, and `location` becomes
    /// the last entry. Either way the offset of the entry being left is
    /// saved, and the tab's location becomes the normal form of `location`,
    /// as `probe` describes its path.
    pub fn change_location(
        &mut self,
        location: &Location,
        history_i_opt: Option<usize>,
        probe: impl Fn(&str) -> PathFacts,
    )
        requires
            old(self).wf(),
            history_i_opt is None ==> old(self).index() < usize::MAX,
            forall|s: &str| call_requires(probe, (s,)),
        ensures
            final(self).wf(),
            location@ is Network ==> final(self).loc()@ == crate::location::normal_network(location@),
            !(location@ is Network) ==> match path_of(location@) {
                Some(p) => exists|facts: PathFacts, home: Option<Seq<char>>|
                    probed(probe, p, facts) && final(self).loc()@ == normalized(location@, facts, home),
                None => final(self).loc()@ == location@,
            },
            match history_i_opt {
                Some(i) => {
                    &&& final(self).entries() == old(self).entries()
                    &&& final(self).index() == i
                    &&& final(self).scrolls() == if old(self).index() < old(self).scrolls().len() {
                        old(self).scrolls().update(old(self).index() as int, old(self).scroll_spec())
                    } else {
                        old(self).scrolls()
                    }
                    &&& if i < final(self).scrolls().len() && final(self).scrolls()[i as int] is Some {
                        final(self).scroll_spec() == final(self).scrolls()[i as int]
                            && final(self).pending_spec() == final(self).scrolls()[i as int]
                    } else {
                        final(self).scroll_spec() is None && final(self).pending_spec() is None
                    }
                },
                None => {
                    &&& final(self).entries() == visited(old(self).entries(), old(self).index(), location@)
                    &&& final(self).index() == final(self).entries().len() - 1
                    &&& final(self).scrolls().last() is None
                    &&& final(self).scroll_spec() is None
                    &&& final(self).pending_spec() is None
                },
            },
    {
        self.location = location.normalize(probe);
        if self.index < self.scrolls.len() {
            let i = self.index;
            let current = self.scroll;
            self.scrolls.set(i, current);
        }
        self.scroll = None;
        self.pending_scroll = None;
        match history_i_opt {
            Some(history_i) => {
                self.index = history_i;
                if history_i < self.scrolls.len() {
                    if let Some(offset) = self.scrolls[history_i] {
                        self.scroll = Some(offset);
                        self.pending_scroll = Some(offset);
                    }
                }
            },
            None => {
                let ghost before = self.entries();
                let keep = self.index + 1;
                self.entries.truncate(keep);
                self.scrolls.truncate(keep);
                assert(self.entries() =~= if keep < before.len() {
                    before.take(keep as int)
                } else {
                    before
                });
                let ghost kept = self.entries();
                let mut remove = false;
                let n = self.entries.len();
                if n > 0 {
                    remove = same_place_exec(&self.entries[n - 1], location);
                    assert(kept.last() == self.entries@[n - 1]@);
                }
                if remove {
                    self.entries.pop();
                    self.scrolls.pop();
                    assert(self.entries() =~= kept.drop_last());
                }
                let ghost dropped = self.entries();
                self.index = self.entries.len();
                self.entries.push(location.clone());
                self.scrolls.push(None);
                assert(self.entries() =~= dropped.push(location@));
            },
        }
    }
}

/// Going back and then forward again returns to the entry it started from,
/// at the same position.
pub proof fn lemma_back_then_forward(entries: Seq<LocationView>, index: usize)
    requires
        1 <= index < entries.len(),
    ensures
        previous_target(entries, index) matches Some((_, i)) && next_target(entries, i) == Some(
            (entries[index as int], index),
        ),
{
}

/// An entry as normalization leaves it: a share whose URI ends in a
/// separator, and a path that does not start with `~`.
pub open spec fn in_normal_form(entry: LocationView) -> bool {
    &&& entry matches LocationView::Network(uri, ..) ==> uri.len() > 0 && uri.last() == '/'
    &&& path_of(entry) matches Some(p) ==> path_strip_prefix(p, "~"@) is None
}

/// Whatever `probe` says of the path `p`, it is a directory whose canonical
/// form is `p` without its trailing separator: `p` is the normal form of an
/// existing directory.
pub open spec fn reported_as_directory<P: Fn(&str) -> PathFacts>(probe: P, p: Seq<char>) -> bool {
    forall|facts: PathFacts| #[trigger] probed(probe, p, facts) ==> (facts.canonical matches Some(c)
        && with_trailing_sep(c@) == p && facts.is_dir)
}

/// Stepping through the history to an entry that is the normal form of an
/// existing directory (or has no path) puts the tab exactly at that entry:
/// `loc` is any location that `change_location` may leave the tab at for
/// `entry`. With [`lemma_back_then_forward`], going back and then forward
/// returns the tab to the entry and the position it left.
pub proof fn lemma_step_lands_on_entry<P: Fn(&str) -> PathFacts>(entry: LocationView, probe: P, loc: LocationView)
    requires
        in_normal_form(entry),
        path_of(entry) matches Some(p) ==> reported_as_directory(probe, p),
        entry is Network ==> loc == normal_network(entry),
        !(entry is Network) ==> match path_of(entry) {
            Some(p) => exists|facts: PathFacts, home: Option<Seq<char>>|
                probed(probe, p, facts) && loc == normalized(entry, facts, home),
            None => loc == entry,
        },
    ensures
        loc == entry,
        location_eq(loc, entry),
{
    if !(entry is Network) {
        if let Some(p) = path_of(entry) {
            let (facts, home) = choose|facts: PathFacts, home: Option<Seq<char>>|
                probed(probe, p, facts) && loc == normalized(entry, facts, home);
            assert(facts.canonical matches Some(c) && with_trailing_sep(c@) == p && facts.is_dir);
        }
    }
}

/// A new visit to a share from the entry `index`, when that entry is a share:
/// with the same URI, the entry is replaced (the history keeps its length up
/// to and including it, and ends at the new visit); with another URI, the
/// visit is added after it. The entries before `index` are kept either way.
pub proof fn lemma_revisiting_a_share_replaces_it(entries: Seq<LocationView>, index: usize, location: LocationView)
    requires
        index < entries.len(),
        entries[index as int] is Network,
        location is Network,
    ensures
        visited(entries, index, location).take(index as int) == entries.take(index as int),
        visited(entries, index, location).last() == location,
        entries[index as int]->Network_0 == location->Network_0 ==> visited(entries, index, location).len()
            == index + 1,
        entries[index as int]->Network_0 != location->Network_0 ==> visited(entries, index, location).len()
            == index + 2 && visited(entries, index, location)[index as int] == entries[index as int],
{
    let kept = if index + 1 < entries.len() {
        entries.take(index + 1)
    } else {
        entries
    };
    assert(kept.len() == index + 1);
    assert(kept.last() == entries[index as int]);
    assert(kept.drop_last().take(index as int) =~= entries.take(index as int));
    assert(kept.take(index as int) =~= entries.take(index as int));
    let v = visited(entries, index, location);
    if entries[index as int]->Network_0 == location->Network_0 {
        assert(v =~= kept.drop_last().push(location));
        assert(v.take(index as int) =~= kept.drop_last());
    } else {
        assert(v =~= kept.push(location));
        assert(v.take(index as int) =~= kept.take(index as int));
    }
}

/// A new visit leaves nothing to go forward to, and going back from it
/// leads to the entry it was made from, unless that was the same place.
pub proof fn lemma_visit_clears_forward(entries: Seq<LocationView>, index: usize, location: LocationView)
    requires
        index < entries.len(),
        index < usize::MAX,
        !same_place(entries[index as int], location),
    ensures
        next_target(
            visited(entries, index, location),
            (visited(entries, index, location).len() - 1) as usize,
        ) is None,
        visited(entries, index, location).len() == index + 2,
        previous_target(visited(entries, index, location), (index + 1) as usize) == Some(
            (entries[index as int], index),
        ),
{
    let kept = if index + 1 < entries.len() {
        entries.take(index + 1)
    } else {
        entries
    };
    assert(kept.last() == entries[index as int]);
}

} // verus!
