//! The shell's bookkeeping for popup surfaces: which popups collapse into
//! their anchor as they close, and which popups the compositor has torn down
//! without their widget seeing it.
//!
//! Popups are known by their window ids. The animation itself (its engine,
//! its texture, the width of the band a menu collapses into) is kept beside
//! these records by the caller, under the same ids.

use crate::shell::Corner;
use std::collections::HashMap;
use vstd::prelude::*;

verus! {

broadcast use vstd::std_specs::hash::group_hash_axioms;

/// One animated popup: the corner it collapses into, and whether it is on
/// its way out.
#[derive(Clone, Copy, Debug, PartialEq, Eq, Structural)]
pub struct GenieEntry {
    pub anchor: Corner,
    pub exiting: bool,
}

/// The records after starting the exit of popup `id`, and whether its
/// teardown is to be withheld until the collapse finishes: only for an
/// animated popup not already on its way out.
pub open spec fn begun_exit(m: Map<u64, GenieEntry>, id: u64) -> (Map<u64, GenieEntry>, bool) {
    if m.contains_key(id) && !m[id].exiting {
        (m.insert(id, GenieEntry { exiting: true, ..m[id] }), true)
    } else {
        (m, false)
    }
}

/// Every animated popup the shell has open.
pub struct PopupGenies {
    entries: HashMap<u64, GenieEntry>,
}

impl PopupGenies {
    /// The records, by popup id.
    pub closed spec fn view(&self) -> Map<u64, GenieEntry> {
        self.entries@
    }

    /// No animated popups.
    pub fn new() -> (r: Self)
        ensures
            r.view() == Map::<u64, GenieEntry>::empty(),
    {
        PopupGenies { entries: HashMap::new() }
    }

    /// Starts animating popup `id`, collapsing toward `anchor`; a record
    /// already held for `id` is replaced.
    pub fn insert(&mut self, id: u64, anchor: Corner)
        ensures
            final(self).view() == old(self).view().insert(id, GenieEntry { anchor, exiting: false }),
    {
        self.entries.insert(id, GenieEntry { anchor, exiting: false });
    }

    /// The record of popup `id`, if it is animated.
    pub fn get(&self, id: u64) -> (r: Option<GenieEntry>)
        ensures
            r == (if self.view().contains_key(id) {
                Some(self.view()[id])
            } else {
                None::<GenieEntry>
            }),
    {
        match self.entries.get(&id) {
            Some(entry) => Some(*entry),
            None => None,
        }
    }

    /// Marks popup `id` as leaving.
    ///
    /// `true` means the caller must withhold the surface teardown until the
    /// collapse finishes. `false` means there is nothing to wait for: either
    /// the popup is not animated, or it is already on its way out and a
    /// teardown is already pending. Withholding twice would strand the
    /// surface for good.
    pub fn begin_exit(&mut self, id: u64) -> (r: bool)
        ensures
            (final(self).view(), r) == begun_exit(old(self).view(), id),
    {
        let entry = match self.entries.get(&id) {
            Some(entry) => *entry,
            None => return false,
        };
        if entry.exiting {
            return false;
        }
        self.entries.insert(id, GenieEntry { exiting: true, ..entry });
        true
    }

    /// A request to tear down popup `id`, animated or not. Returns whether
    /// the teardown is withheld until the collapse finishes: only for an
    /// animated request whose exit [`begin_exit`](Self::begin_exit)
    /// begins; an unanimated request changes nothing here.
    pub fn destroy(&mut self, id: u64, animate: bool) -> (withheld: bool)
        ensures
            animate ==> (final(self).view(), withheld) == begun_exit(old(self).view(), id),
            !animate ==> final(self).view() == old(self).view() && !withheld,
    {
        animate && self.begin_exit(id)
    }

    /// Forgets popup `id`; forgetting one not held changes nothing.
    pub fn remove(&mut self, id: u64)
        ensures
            final(self).view() == old(self).view().remove(id),
    {
        self.entries.remove(&id);
    }
}

/// A popup's teardown is withheld at most once: once its exit has begun,
/// beginning it again withholds nothing, and the exit of one popup leaves
/// every other popup's record as it was.
pub proof fn lemma_a_teardown_is_withheld_once(m: Map<u64, GenieEntry>, id: u64, other: u64)
    ensures
        !begun_exit(begun_exit(m, id).0, id).1,
        other != id ==> begun_exit(m, id).0.contains_key(other) == m.contains_key(other),
        other != id && m.contains_key(other) ==> begun_exit(m, id).0[other] == m[other],
        begun_exit(m, id).1 ==> begun_exit(m, id).0[id].anchor == m[id].anchor,
{
}

/// The most dismissed popups remembered for widgets that have not claimed
/// them; a widget that went away never claims its own.
pub const MAX_UNCLAIMED: usize = 64;

/// The dismissed ids after noting `id`: when the list is full the oldest
/// goes, and `id` is added unless it is there already.
pub open spec fn noted(s: Seq<u64>, id: u64) -> Seq<u64> {
    let kept = if s.len() >= MAX_UNCLAIMED {
        s.drop_first()
    } else {
        s
    };
    if kept.contains(id) {
        kept
    } else {
        kept.push(id)
    }
}

/// The dismissed ids after claiming `id`: taken out when it is there.
pub open spec fn claimed(s: Seq<u64>, id: u64) -> Seq<u64> {
    if s.contains(id) {
        s.remove(s.index_of(id))
    } else {
        s
    }
}

/// The popups the compositor has torn down, noted by the shell and claimed
/// by the widgets they belonged to, oldest first.
pub struct Dismissals {
    ids: Vec<u64>,
}

impl Dismissals {
    /// The dismissed ids not yet claimed, oldest first.
    pub closed spec fn view(&self) -> Seq<u64> {
        self.ids@
    }

    /// Each id is held once, and no more than [`MAX_UNCLAIMED`] of them.
    pub open spec fn wf(&self) -> bool {
        self.view().no_duplicates() && self.view().len() <= MAX_UNCLAIMED
    }

    /// None dismissed.
    pub fn new() -> (r: Self)
        ensures
            r.wf(),
            r.view() == Seq::<u64>::empty(),
    {
        Dismissals { ids: Vec::new() }
    }

    fn position(&self, id: u64) -> (r: Option<usize>)
        requires
            self.wf(),
        ensures
            match r {
                Some(i) => self.view().contains(id) && i == self.view().index_of(id),
                None => !self.view().contains(id),
            },
    {
        let mut i: usize = 0;
        while i < self.ids.len()
            invariant
                i <= self.ids@.len(),
                self.ids@.no_duplicates(),
                forall|j: int| 0 <= j < i ==> self.ids@[j] != id,
            decreases self.ids@.len() - i,
        {
            if self.ids[i] == id {
                proof {
                    assert(self.ids@.contains(id));
                    let k = self.ids@.index_of(id);
                    assert(self.ids@[k] == id);
                    assert(k == i as int);
                }
                return Some(i);
            }
            i = i + 1;
        }
        None
    }

    /// The shell records that the compositor closed popup `id`.
    pub fn note(&mut self, id: u64)
        requires
            old(self).wf(),
        ensures
            final(self).wf(),
            final(self).view() == noted(old(self).view(), id),
    {
        if self.ids.len() >= MAX_UNCLAIMED {
            let ghost before = self.ids@;
            self.ids.remove(0);
            proof {
                assert(self.ids@ =~= before.drop_first());
                assert forall|a: int, b: int| 0 <= a < b < self.ids@.len() implies self.ids@[a] != self.ids@[b] by {
                    assert(self.ids@[a] == before[a + 1]);
                    assert(self.ids@[b] == before[b + 1]);
                }
            }
        }
        match self.position(id) {
            Some(_) => {},
            None => {
                self.ids.push(id);
            },
        }
    }

    /// A widget claims its popup `id`, if it was dismissed: `true` once per
    /// dismissal.
    pub fn claim(&mut self, id: u64) -> (r: bool)
        requires
            old(self).wf(),
        ensures
            final(self).wf(),
            r == old(self).view().contains(id),
            final(self).view() == claimed(old(self).view(), id),
    {
        match self.position(id) {
            Some(i) => {
                let ghost before = self.ids@;
                self.ids.remove(i);
                proof {
                    assert forall|a: int, b: int| 0 <= a < b < self.ids@.len() implies self.ids@[a] != self.ids@[b] by {
                        if a < i {
                            assert(self.ids@[a] == before[a]);
                        } else {
                            assert(self.ids@[a] == before[a + 1]);
                        }
                        if b < i {
                            assert(self.ids@[b] == before[b]);
                        } else {
                            assert(self.ids@[b] == before[b + 1]);
                        }
                    }
                }
                true
            },
            None => false,
        }
    }
}

/// A dismissal is claimed once: right after the shell notes popup `id`, its
/// widget's claim succeeds, and a second claim does not.
pub proof fn lemma_a_dismissal_is_claimed_once(s: Seq<u64>, id: u64)
    requires
        s.no_duplicates(),
        s.len() <= MAX_UNCLAIMED,
    ensures
        noted(s, id).contains(id),
        noted(s, id).no_duplicates(),
        noted(s, id).len() <= MAX_UNCLAIMED,
        !claimed(noted(s, id), id).contains(id),
{
    let kept = if s.len() >= MAX_UNCLAIMED {
        s.drop_first()
    } else {
        s
    };
    assert(kept.no_duplicates()) by {
        assert forall|a: int, b: int| 0 <= a < b < kept.len() implies kept[a] != kept[b] by {
            if s.len() >= MAX_UNCLAIMED {
                assert(kept[a] == s[a + 1]);
                assert(kept[b] == s[b + 1]);
            }
        }
    }
    let n = noted(s, id);
    if !kept.contains(id) {
        assert(n[n.len() - 1] == id);
        assert forall|a: int, b: int| 0 <= a < b < n.len() implies n[a] != n[b] by {
            if b == n.len() - 1 {
                assert(n[a] == kept[a]);
                assert(!kept.contains(id));
            }
        }
    }
    assert(n.contains(id));
    let k = n.index_of(id);
    let c = n.remove(k);
    assert forall|j: int| 0 <= j < c.len() implies c[j] != id by {
        if j < k {
            assert(c[j] == n[j]);
        } else {
            assert(c[j] == n[j + 1]);
        }
    }
}

/// The counts after a surface opens under `id`.
pub open spec fn opened_in(m: Map<u64, usize>, id: u64) -> Map<u64, usize> {
    m.insert(
        id,
        (if m.contains_key(id) {
            m[id] + 1
        } else {
            1
        }) as usize,
    )
}

/// The counts after a surface under `id` closes, and whether it was the
/// last one there: the id goes with its last surface; a close for an id
/// with none open changes nothing.
pub open spec fn closed_in(m: Map<u64, usize>, id: u64) -> (Map<u64, usize>, bool) {
    if !m.contains_key(id) {
        (m, false)
    } else if m[id] <= 1 {
        (m.remove(id), true)
    } else {
        (m.insert(id, (m[id] - 1) as usize), false)
    }
}

/// How many surfaces are open under each window id: an id can be reused for
/// a new popup before the compositor's close of the old one arrives.
pub struct OpenedSurfaces {
    counts: HashMap<u64, usize>,
}

impl OpenedSurfaces {
    /// The counts, by id; an id with none open is absent.
    pub closed spec fn view(&self) -> Map<u64, usize> {
        self.counts@
    }

    /// Every id held has a surface open.
    pub open spec fn wf(&self) -> bool {
        forall|id: u64| #[trigger] self.view().contains_key(id) ==> self.view()[id] > 0
    }

    /// None open.
    pub fn new() -> (r: Self)
        ensures
            r.wf(),
            r.view() == Map::<u64, usize>::empty(),
    {
        OpenedSurfaces { counts: HashMap::new() }
    }

    /// How many surfaces are open under `id`.
    pub fn count(&self, id: u64) -> (r: usize)
        ensures
            r == (if self.view().contains_key(id) {
                self.view()[id]
            } else {
                0
            }),
    {
        match self.counts.get(&id) {
            Some(n) => *n,
            None => 0,
        }
    }

    /// A surface was opened under `id`.
    pub fn opened(&mut self, id: u64)
        requires
            old(self).wf(),
            old(self).view().contains_key(id) ==> old(self).view()[id] < usize::MAX,
        ensures
            final(self).wf(),
            final(self).view() == opened_in(old(self).view(), id),
    {
        let n = self.count(id);
        let ghost before = self.counts@;
        self.counts.insert(id, n + 1);
        assert forall|k: u64| #[trigger] self.counts@.contains_key(k) implies self.counts@[k] > 0 by {
            if k != id {
                assert(old(self).view().contains_key(k));
            }
        }
    }

    /// The compositor closed a surface under `id`. Returns whether it was
    /// the last one open there, which is when the popup's view and records
    /// go; a close for an id with none open changes nothing.
    pub fn closed(&mut self, id: u64) -> (last: bool)
        requires
            old(self).wf(),
        ensures
            final(self).wf(),
            (final(self).view(), last) == closed_in(old(self).view(), id),
    {
        let n = match self.counts.get(&id) {
            Some(n) => *n,
            None => return false,
        };
        let ghost before = self.counts@;
        if n <= 1 {
            self.counts.remove(&id);
            assert forall|k: u64| #[trigger] self.counts@.contains_key(k) implies self.counts@[k] > 0 by {
                assert(old(self).view().contains_key(k));
            }
            true
        } else {
            self.counts.insert(id, n - 1);
            assert forall|k: u64| #[trigger] self.counts@.contains_key(k) implies self.counts@[k] > 0 by {
                if k != id {
                    assert(old(self).view().contains_key(k));
                }
            }
            false
        }
    }
}

/// A popup's view goes only when as many closes have come for its id as
/// surfaces were opened under it: with an id reused before the first close
/// arrived, the first close keeps the view and the second lets it go,
/// leaving the counts as they were.
pub proof fn lemma_a_reused_id_keeps_its_view_until_the_last_close(m: Map<u64, usize>, id: u64)
    requires
        !m.contains_key(id),
    ensures
        ({
            let twice = opened_in(opened_in(m, id), id);
            let (one_left, first_last) = closed_in(twice, id);
            let (none_left, second_last) = closed_in(one_left, id);
            &&& !first_last
            &&& one_left.contains_key(id)
            &&& second_last
            &&& none_left =~= m
        }),
{
}

} // verus!
