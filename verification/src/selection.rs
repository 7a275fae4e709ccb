//! Which items of a tab are selected, focused, highlighted or cut, and how
//! the keyboard moves the selection over the grid the items are laid out in.

use crate::paths::{path_eq, same_path};
use crate::text::{chars_of, has_prefix, has_prefix_chars, lowercase, str_eq, to_lowercase};
use vstd::prelude::*;

verus! {

/// Where an item sits in the laid-out view: its row and column.
pub type GridPos = (usize, usize);

/// What the selection logic reads of an item.
#[derive(Debug)]
pub struct GridItem {
    /// Its file name.
    pub name: String,
    /// Whether it is hidden.
    pub hidden: bool,
    /// Where it was laid out, if it was.
    pub pos: Option<GridPos>,
    /// Its path, if it has one.
    pub path: Option<String>,
    /// Whether it is a directory.
    pub is_dir: bool,
}

/// Whether `a` comes before `b`, row first.
pub open spec fn before(a: GridPos, b: GridPos) -> bool {
    a.0 < b.0 || (a.0 == b.0 && a.1 < b.1)
}

fn before_exec(a: GridPos, b: GridPos) -> (r: bool)
    ensures
        r == before(a, b),
{
    a.0 < b.0 || (a.0 == b.0 && a.1 < b.1)
}

/// The items of a tab, with what is selected, highlighted and cut, which
/// item has the focus, and the range a shift-selection extends.
pub struct Selection {
    items: Vec<GridItem>,
    selected: Vec<bool>,
    highlighted: Vec<bool>,
    cut: Vec<bool>,
    focus: Option<usize>,
    range: Option<(usize, usize)>,
}

impl Selection {
    /// The items.
    pub closed spec fn items(&self) -> Seq<GridItem> {
        self.items@
    }

    /// Which items are selected.
    pub closed spec fn selected(&self) -> Seq<bool> {
        self.selected@
    }

    /// Which items are highlighted.
    pub closed spec fn highlighted(&self) -> Seq<bool> {
        self.highlighted@
    }

    /// Which items are cut.
    pub closed spec fn cut(&self) -> Seq<bool> {
        self.cut@
    }

    /// The focused item.
    pub closed spec fn focus(&self) -> Option<usize> {
        self.focus
    }

    /// The range a shift-selection extends: its anchor and its far end.
    pub closed spec fn range(&self) -> Option<(usize, usize)> {
        self.range
    }

    /// There is one flag of each kind per item.
    pub closed spec fn wf(&self) -> bool {
        &&& self.selected@.len() == self.items@.len()
        &&& self.highlighted@.len() == self.items@.len()
        &&& self.cut@.len() == self.items@.len()
    }

    /// `items`, none of them selected, highlighted or cut, and no focus.
    pub fn new(items: Vec<GridItem>) -> (r: Self)
        ensures
            r.wf(),
            r.items() == items@,
            r.selected() == Seq::new(items@.len(), |i: int| false),
            r.highlighted() == Seq::new(items@.len(), |i: int| false),
            r.cut() == Seq::new(items@.len(), |i: int| false),
            r.focus() is None,
            r.range() is None,
    {
        let n = items.len();
        let mut selected: Vec<bool> = Vec::new();
        let mut i: usize = 0;
        while i < n
            invariant
                i <= n,
                selected@ =~= Seq::new(i as nat, |j: int| false),
            decreases n - i,
        {
            selected.push(false);
            i = i + 1;
        }
        let highlighted = selected.clone();
        let cut = selected.clone();
        Selection { items, selected, highlighted, cut, focus: None, range: None }
    }

    /// The number of items.
    pub fn len(&self) -> (r: usize)
        ensures
            r == self.items().len(),
    {
        self.items.len()
    }

    /// The item at `i`.
    pub fn item(&self, i: usize) -> (r: &GridItem)
        requires
            i < self.items().len(),
        ensures
            *r == self.items()[i as int],
    {
        &self.items[i]
    }

    /// Whether the item at `i` is selected.
    pub fn is_selected(&self, i: usize) -> (r: bool)
        requires
            self.wf(),
            i < self.items().len(),
        ensures
            r == self.selected()[i as int],
    {
        self.selected[i]
    }

    /// Whether the item at `i` is highlighted.
    pub fn is_highlighted(&self, i: usize) -> (r: bool)
        requires
            self.wf(),
            i < self.items().len(),
        ensures
            r == self.highlighted()[i as int],
    {
        self.highlighted[i]
    }

    /// Whether the item at `i` is cut.
    pub fn is_cut(&self, i: usize) -> (r: bool)
        requires
            self.wf(),
            i < self.items().len(),
        ensures
            r == self.cut()[i as int],
    {
        self.cut[i]
    }

    /// The focused item.
    pub fn select_focus(&self) -> (r: Option<usize>)
        ensures
            r == self.focus(),
    {
        self.focus
    }

    /// Record where the item at `i` was laid out.
    pub fn set_position(&mut self, i: usize, pos: Option<GridPos>)
        requires
            i < old(self).items().len(),
        ensures
            final(self).items() == old(self).items().update(
                i as int,
                GridItem { pos, ..old(self).items()[i as int] },
            ),
            final(self).selected() == old(self).selected(),
            final(self).highlighted() == old(self).highlighted(),
            final(self).cut() == old(self).cut(),
            final(self).focus() == old(self).focus(),
            final(self).range() == old(self).range(),
            final(self).wf() == old(self).wf(),
    {
        let old_item = self.items.remove(i);
        let GridItem { name, hidden, path, is_dir, .. } = old_item;
        self.items.insert(i, GridItem { name, hidden, pos, path, is_dir });
        assert(self.items@ =~= old(self).items@.update(
            i as int,
            GridItem { pos, ..old(self).items@[i as int] },
        ));
    }
}

/// The anchor range a shift-selection works from: the focus alone when a
/// range has to be started, and otherwise the range as it is.
pub open spec fn shift_range(focus: Option<usize>, range: Option<(usize, usize)>, shift: bool) -> Option<
    (usize, usize),
> {
    if shift && (focus is None || range is None) {
        match focus {
            Some(i) => Some((i, i)),
            None => None,
        }
    } else {
        range
    }
}

/// Where the anchor of a shift-selection sits, if it has been laid out.
pub open spec fn anchor_pos(items: Seq<GridItem>, range: Option<(usize, usize)>, shift: bool) -> Option<
    GridPos,
> {
    if shift {
        match range {
            Some(r) => if r.0 < items.len() {
                items[r.0 as int].pos
            } else {
                None
            },
            None => None,
        }
    } else {
        None
    }
}

/// The first position of the span selected when `target` is selected from
/// `anchor`.
pub open spec fn span_start(anchor: Option<GridPos>, target: GridPos) -> GridPos {
    match anchor {
        Some(p) => if before(p, target) {
            p
        } else {
            target
        },
        None => target,
    }
}

/// The last position of that span.
pub open spec fn span_end(anchor: Option<GridPos>, target: GridPos) -> GridPos {
    match anchor {
        Some(p) => if before(p, target) {
            target
        } else {
            p
        },
        None => target,
    }
}

/// Whether `pos` lies between `start` and `end`.
pub open spec fn in_span(pos: GridPos, start: GridPos, end: GridPos) -> bool {
    !before(pos, start) && !before(end, pos)
}

/// The last of `items` laid out at `target`.
pub open spec fn last_at(items: Seq<GridItem>, target: GridPos) -> Option<usize>
    decreases items.len(),
{
    if items.len() == 0 {
        None
    } else if items.last().pos == Some(target) {
        Some((items.len() - 1) as usize)
    } else {
        last_at(items.drop_last(), target)
    }
}

/// The selection after selecting the item at `target`: with `shift`, the
/// whole span from the anchor to it, otherwise it alone.
pub open spec fn selected_span(items: Seq<GridItem>, start: GridPos, end: GridPos) -> Seq<bool> {
    Seq::new(
        items.len(),
        |i: int|
            match items[i].pos {
                Some(p) => in_span(p, start, end),
                None => false,
            },
    )
}

impl Selection {
    /// Select everything, leaving out hidden items unless they are shown.
    pub fn select_all(&mut self, show_hidden: bool)
        requires
            old(self).wf(),
        ensures
            final(self).wf(),
            final(self).selected() == Seq::new(
                old(self).items().len(),
                |i: int| show_hidden || !old(self).items()[i].hidden,
            ),
            final(self).items() == old(self).items(),
            final(self).highlighted() == old(self).highlighted(),
            final(self).cut() == old(self).cut(),
            final(self).focus() == old(self).focus(),
            final(self).range() == old(self).range(),
    {
        let n = self.items.len();
        let mut i: usize = 0;
        while i < n
            invariant
                i <= n,
                n == self.items@.len(),
                self.wf(),
                self.items@ == old(self).items@,
                self.highlighted@ == old(self).highlighted@,
                self.cut@ == old(self).cut@,
                self.focus == old(self).focus,
                self.range == old(self).range,
                forall|j: int| 0 <= j < i ==> self.selected@[j] == (show_hidden || !self.items@[j].hidden),
            decreases n - i,
        {
            let b = show_hidden || !self.items[i].hidden;
            self.selected.set(i, b);
            i = i + 1;
        }
        assert(self.selected@ =~= Seq::new(
            old(self).items().len(),
            |i: int| show_hidden || !old(self).items()[i].hidden,
        ));
    }

    /// Select nothing and drop the focus. Returns whether anything was
    /// selected.
    pub fn select_none(&mut self) -> (had_selection: bool)
        requires
            old(self).wf(),
        ensures
            final(self).wf(),
            had_selection == old(self).selected().contains(true),
            final(self).selected() == all(old(self).items().len(), false),
            final(self).focus() is None,
            final(self).items() == old(self).items(),
            final(self).highlighted() == old(self).highlighted(),
            final(self).cut() == old(self).cut(),
            final(self).range() == old(self).range(),
    {
        self.focus = None;
        let n = self.items.len();
        let mut had = false;
        let mut i: usize = 0;
        while i < n
            invariant
                i <= n,
                n == self.items@.len(),
                self.wf(),
                self.items@ == old(self).items@,
                self.highlighted@ == old(self).highlighted@,
                self.cut@ == old(self).cut@,
                self.focus is None,
                self.range == old(self).range,
                forall|j: int| 0 <= j < i ==> !self.selected@[j],
                forall|j: int| i <= j < n ==> self.selected@[j] == old(self).selected@[j],
                had == exists|j: int| 0 <= j < i && old(self).selected@[j],
            decreases n - i,
        {
            if self.selected[i] {
                had = true;
            }
            self.selected.set(i, false);
            i = i + 1;
        }
        assert(self.selected@ =~= all(n as nat, false));
        assert(had == old(self).selected().contains(true)) by {
            if old(self).selected().contains(true) {
                let k = choose|k: int| 0 <= k < n && old(self).selected@[k] == true;
                assert(old(self).selected@[k]);
            }
        }
        had
    }

    /// Select the items named `name`, and focus the last of them.
    pub fn select_name(&mut self, name: &str)
        requires
            old(self).wf(),
        ensures
            final(self).wf(),
            final(self).selected() == Seq::new(
                old(self).items().len(),
                |i: int| old(self).items()[i].name@ == name@,
            ),
            final(self).focus() == last_where(final(self).selected()),
            final(self).items() == old(self).items(),
            final(self).highlighted() == old(self).highlighted(),
            final(self).cut() == old(self).cut(),
            final(self).range() == old(self).range(),
    {
        self.focus = None;
        let n = self.items.len();
        let mut i: usize = 0;
        while i < n
            invariant
                i <= n,
                n == self.items@.len(),
                self.wf(),
                self.items@ == old(self).items@,
                self.highlighted@ == old(self).highlighted@,
                self.cut@ == old(self).cut@,
                self.range == old(self).range,
                forall|j: int| 0 <= j < i ==> self.selected@[j] == (self.items@[j].name@ == name@),
                self.focus == last_where(self.selected@.take(i as int)),
            decreases n - i,
        {
            let b = str_eq(self.items[i].name.as_str(), name);
            let ghost prefix = self.selected@.take(i as int);
            self.selected.set(i, b);
            assert(self.selected@.take(i as int) =~= prefix);
            assert(self.selected@.take(i + 1).drop_last() =~= self.selected@.take(i as int));
            if b {
                self.focus = Some(i);
            }
            i = i + 1;
        }
        assert(self.selected@.take(n as int) =~= self.selected@);
        assert(self.selected@ =~= Seq::new(
            old(self).items().len(),
            |i: int| old(self).items()[i].name@ == name@,
        ));
    }

    /// Select the items whose paths are among `paths`, and focus the last of
    /// them.
    pub fn select_paths(&mut self, paths: &[String])
        requires
            old(self).wf(),
        ensures
            final(self).wf(),
            final(self).selected() == Seq::new(
                old(self).items().len(),
                |i: int| has_path_among(old(self).items()[i], paths@),
            ),
            final(self).focus() == last_where(final(self).selected()),
            final(self).items() == old(self).items(),
            final(self).highlighted() == old(self).highlighted(),
            final(self).cut() == old(self).cut(),
            final(self).range() == old(self).range(),
    {
        self.focus = None;
        let n = self.items.len();
        let mut i: usize = 0;
        while i < n
            invariant
                i <= n,
                n == self.items@.len(),
                self.wf(),
                self.items@ == old(self).items@,
                self.highlighted@ == old(self).highlighted@,
                self.cut@ == old(self).cut@,
                self.range == old(self).range,
                forall|j: int| 0 <= j < i ==> self.selected@[j] == has_path_among(self.items@[j], paths@),
                self.focus == last_where(self.selected@.take(i as int)),
            decreases n - i,
        {
            let b = item_path_among(&self.items[i], paths);
            let ghost prefix = self.selected@.take(i as int);
            self.selected.set(i, b);
            assert(self.selected@.take(i as int) =~= prefix);
            assert(self.selected@.take(i + 1).drop_last() =~= self.selected@.take(i as int));
            if b {
                self.focus = Some(i);
            }
            i = i + 1;
        }
        assert(self.selected@.take(n as int) =~= self.selected@);
        assert(self.selected@ =~= Seq::new(
            old(self).items().len(),
            |i: int| has_path_among(old(self).items()[i], paths@),
        ));
    }

    /// Mark exactly the selected items as cut.
    pub fn cut_selected(&mut self)
        requires
            old(self).wf(),
        ensures
            final(self).wf(),
            final(self).cut() == old(self).selected(),
            final(self).items() == old(self).items(),
            final(self).selected() == old(self).selected(),
            final(self).highlighted() == old(self).highlighted(),
            final(self).focus() == old(self).focus(),
            final(self).range() == old(self).range(),
    {
        self.cut = self.selected.clone();
    }

    /// Mark as cut exactly the items whose paths are among `paths`.
    pub fn refresh_cut(&mut self, paths: &[String])
        requires
            old(self).wf(),
        ensures
            final(self).wf(),
            final(self).cut() == Seq::new(
                old(self).items().len(),
                |i: int| has_path_among(old(self).items()[i], paths@),
            ),
            final(self).items() == old(self).items(),
            final(self).selected() == old(self).selected(),
            final(self).highlighted() == old(self).highlighted(),
            final(self).focus() == old(self).focus(),
            final(self).range() == old(self).range(),
    {
        let n = self.items.len();
        let mut i: usize = 0;
        while i < n
            invariant
                i <= n,
                n == self.items@.len(),
                self.wf(),
                self.items@ == old(self).items@,
                self.highlighted@ == old(self).highlighted@,
                self.selected@ == old(self).selected@,
                self.focus == old(self).focus,
                self.range == old(self).range,
                forall|j: int| 0 <= j < i ==> self.cut@[j] == has_path_among(self.items@[j], paths@),
            decreases n - i,
        {
            let b = item_path_among(&self.items[i], paths);
            self.cut.set(i, b);
            i = i + 1;
        }
        assert(self.cut@ =~= Seq::new(
            old(self).items().len(),
            |i: int| has_path_among(old(self).items()[i], paths@),
        ));
    }

    /// Highlight exactly the item `target`, or nothing.
    pub fn highlight_drop_target(&mut self, target: Option<usize>)
        requires
            old(self).wf(),
        ensures
            final(self).wf(),
            final(self).highlighted() == Seq::new(
                old(self).items().len(),
                |i: int| target == Some(i as usize),
            ),
            final(self).items() == old(self).items(),
            final(self).selected() == old(self).selected(),
            final(self).cut() == old(self).cut(),
            final(self).focus() == old(self).focus(),
            final(self).range() == old(self).range(),
    {
        let n = self.items.len();
        let mut i: usize = 0;
        while i < n
            invariant
                i <= n,
                n == self.items@.len(),
                self.wf(),
                self.items@ == old(self).items@,
                self.cut@ == old(self).cut@,
                self.selected@ == old(self).selected@,
                self.focus == old(self).focus,
                self.range == old(self).range,
                forall|j: int| 0 <= j < i ==> self.highlighted@[j] == (target == Some(j as usize)),
            decreases n - i,
        {
            let b = match target {
                Some(t) => t == i,
                None => false,
            };
            self.highlighted.set(i, b);
            i = i + 1;
        }
        assert(self.highlighted@ =~= Seq::new(
            old(self).items().len(),
            |i: int| target == Some(i as usize),
        ));
    }

    /// Highlight nothing.
    pub fn dehighlight_all(&mut self)
        requires
            old(self).wf(),
        ensures
            final(self).wf(),
            final(self).highlighted() == all(old(self).items().len(), false),
            final(self).items() == old(self).items(),
            final(self).selected() == old(self).selected(),
            final(self).cut() == old(self).cut(),
            final(self).focus() == old(self).focus(),
            final(self).range() == old(self).range(),
    {
        self.highlight_drop_target(None);
        assert(self.highlighted@ =~= all(old(self).items().len(), false));
    }

    /// Where the focused item sits, if it has been laid out.
    pub fn select_focus_pos_opt(&self) -> (r: Option<GridPos>)
        ensures
            r == match self.focus() {
                Some(i) => if i < self.items().len() {
                    self.items()[i as int].pos
                } else {
                    None
                },
                None => None,
            },
    {
        match self.focus {
            Some(i) => if i < self.items.len() {
                self.items[i].pos
            } else {
                None
            },
            None => None,
        }
    }

    /// The first position among the selected items, row first.
    pub fn select_first_pos_opt(&self) -> (r: Option<GridPos>)
        requires
            self.wf(),
        ensures
            is_extreme_selected(self.items(), self.selected(), r, true),
            r == selected_extreme(self.items(), self.selected(), true),
    {
        self.extreme_selected_pos(true)
    }

    /// The last position among the selected items, row first.
    pub fn select_last_pos_opt(&self) -> (r: Option<GridPos>)
        requires
            self.wf(),
        ensures
            is_extreme_selected(self.items(), self.selected(), r, false),
            r == selected_extreme(self.items(), self.selected(), false),
    {
        self.extreme_selected_pos(false)
    }

    fn extreme_selected_pos(&self, first: bool) -> (r: Option<GridPos>)
        requires
            self.wf(),
        ensures
            is_extreme_selected(self.items(), self.selected(), r, first),
            r == selected_extreme(self.items(), self.selected(), first),
    {
        let n = self.items.len();
        let mut best: Option<GridPos> = None;
        let mut i: usize = 0;
        while i < n
            invariant
                i <= n,
                n == self.items@.len(),
                self.wf(),
                is_extreme_selected(self.items@.take(i as int), self.selected@.take(i as int), best, first),
                best == selected_extreme(self.items@.take(i as int), self.selected@.take(i as int), first),
            decreases n - i,
        {
            let ghost (pi, ps) = (self.items@.take(i as int), self.selected@.take(i as int));
            assert(self.items@.take(i + 1) =~= pi.push(self.items@[i as int]));
            assert(self.selected@.take(i + 1) =~= ps.push(self.selected@[i as int]));
            assert(self.items@.take(i + 1).drop_last() =~= pi);
            assert(self.selected@.take(i + 1).drop_last() =~= ps);
            let ghost old_best = best;
            if self.selected[i] {
                if let Some(p) = self.items[i].pos {
                    best = match best {
                        Some(b) => if first {
                            if before_exec(p, b) {
                                Some(p)
                            } else {
                                Some(b)
                            }
                        } else {
                            if before_exec(b, p) {
                                Some(p)
                            } else {
                                Some(b)
                            }
                        },
                        None => Some(p),
                    };
                }
            }
            proof {
                lemma_extreme_step(pi, ps, self.items@[i as int], self.selected@[i as int], old_best, best, first);
            }
            i = i + 1;
        }
        assert(self.items@.take(n as int) =~= self.items@);
        assert(self.selected@.take(n as int) =~= self.selected@);
        best
    }
}

/// What a selection holds besides its items: the selected flags, the focus
/// and the range.
pub struct SelState {
    pub selected: Seq<bool>,
    pub focus: Option<usize>,
    pub range: Option<(usize, usize)>,
}

/// The selection after selecting the item at `row` and `col` of `items`
/// from `st`, and whether an item sits there: with `shift`, everything from
/// the anchor of the range to it, row first; otherwise it alone. The item
/// becomes the focus, and the far end of the range, or the whole range
/// without `shift`. If no item sits there the span is still selected and
/// the focus stays.
pub open spec fn after_position(items: Seq<GridItem>, st: SelState, row: usize, col: usize, shift: bool) -> (
    SelState,
    bool,
) {
    let target = (row, col);
    let range1 = shift_range(st.focus, st.range, shift);
    let anchor = anchor_pos(items, range1, shift);
    let hit = last_at(items, target);
    (
        SelState {
            selected: selected_span(items, span_start(anchor, target), span_end(anchor, target)),
            focus: if hit is Some {
                hit
            } else {
                st.focus
            },
            range: match hit {
                Some(h) => if shift {
                    match range1 {
                        Some(r) => Some((r.0, h)),
                        None => None,
                    }
                } else {
                    Some((h, h))
                },
                None => range1,
            },
        },
        hit is Some,
    )
}

impl Selection {
    /// The selected flags, focus and range.
    pub closed spec fn state(&self) -> SelState {
        SelState { selected: self.selected@, focus: self.focus, range: self.range }
    }
}

impl Selection {
    /// Select the item at `row` and `col`: with `shift`, everything from the
    /// anchor of the range to it, row first; otherwise it alone. The item
    /// becomes the focus, and the far end of the range, or the whole range
    /// without `shift`. Returns whether an item sits there; if none does,
    /// the span is still selected and the focus stays.
    pub fn select_position(&mut self, row: usize, col: usize, shift: bool) -> (found: bool)
        requires
            old(self).wf(),
        ensures
            final(self).wf(),
            (final(self).state(), found) == after_position(
                old(self).items(),
                old(self).state(),
                row,
                col,
                shift,
            ),
            final(self).items() == old(self).items(),
            final(self).highlighted() == old(self).highlighted(),
            final(self).cut() == old(self).cut(),
    {
        let target: GridPos = (row, col);
        let mut start = target;
        let mut end = target;
        if shift {
            if self.focus.is_none() || self.range.is_none() {
                self.range = match self.focus {
                    Some(i) => Some((i, i)),
                    None => None,
                };
            }
            let anchor = match self.range {
                Some(r) => if r.0 < self.items.len() {
                    self.items[r.0].pos
                } else {
                    None
                },
                None => None,
            };
            if let Some(pos) = anchor {
                if before_exec(pos, target) {
                    start = pos;
                } else {
                    end = pos;
                }
            }
        }
        let ghost range1 = self.range;
        let ghost items = self.items@;
        let n = self.items.len();
        let mut found = false;
        let mut i: usize = 0;
        while i < n
            invariant
                i <= n,
                n == self.items@.len(),
                self.wf(),
                self.items@ == items,
                items == old(self).items@,
                self.highlighted@ == old(self).highlighted@,
                self.cut@ == old(self).cut@,
                forall|j: int| 0 <= j < i ==> self.selected@[j] == selected_span(items, start, end)[j],
                found == (last_at(items.take(i as int), target) is Some),
                self.focus == if found {
                    last_at(items.take(i as int), target)
                } else {
                    old(self).focus
                },
                self.range == match last_at(items.take(i as int), target) {
                    Some(h) => if shift {
                        match range1 {
                            Some(r) => Some((r.0, h)),
                            None => None,
                        }
                    } else {
                        Some((h, h))
                    },
                    None => range1,
                },
            decreases n - i,
        {
            assert(items.take(i + 1).drop_last() =~= items.take(i as int));
            assert(items.take(i + 1).last() == items[i as int]);
            let sel = match self.items[i].pos {
                Some(pos) => !before_exec(pos, start) && !before_exec(end, pos),
                None => false,
            };
            self.selected.set(i, sel);
            if self.items[i].pos == Some(target) {
                self.focus = Some(i);
                self.range = if shift {
                    match self.range {
                        Some(r) => Some((r.0, i)),
                        None => None,
                    }
                } else {
                    Some((i, i))
                };
                found = true;
            }
            i = i + 1;
        }
        assert(items.take(n as int) =~= items);
        assert(self.selected@ =~= selected_span(items, start, end));
        found
    }
}

/// `p` or `b`, whichever comes first (or, unless `first`, last), row first.
pub open spec fn pick(p: GridPos, b: GridPos, first: bool) -> GridPos {
    if first {
        if before(p, b) {
            p
        } else {
            b
        }
    } else {
        if before(b, p) {
            p
        } else {
            b
        }
    }
}

/// The first (or, unless `first`, the last) position, row first, among the
/// selected items that have been laid out.
pub open spec fn selected_extreme(items: Seq<GridItem>, selected: Seq<bool>, first: bool) -> Option<GridPos>
    decreases items.len(),
{
    if items.len() == 0 || selected.len() == 0 {
        None
    } else {
        let rest = selected_extreme(items.drop_last(), selected.drop_last(), first);
        if selected.last() && items.last().pos is Some {
            match rest {
                Some(b) => Some(pick(items.last().pos.unwrap(), b, first)),
                None => items.last().pos,
            }
        } else {
            rest
        }
    }
}

/// The last (with `at_most`, among rows up to `bound`) or first (among rows
/// from `bound` on) position of the laid-out items, row first.
pub open spec fn bounded_extreme(items: Seq<GridItem>, bound: usize, at_most: bool) -> Option<GridPos>
    decreases items.len(),
{
    if items.len() == 0 {
        None
    } else {
        let rest = bounded_extreme(items.drop_last(), bound, at_most);
        match items.last().pos {
            Some(p) => if (at_most && p.0 <= bound) || (!at_most && p.0 >= bound) {
                match rest {
                    Some(b) => Some(pick(p, b, !at_most)),
                    None => Some(p),
                }
            } else {
                rest
            },
            None => rest,
        }
    }
}

/// The last column used in `row` by the laid-out items, or 0.
pub open spec fn row_last_col(items: Seq<GridItem>, row: usize) -> usize
    decreases items.len(),
{
    if items.len() == 0 {
        0
    } else {
        let rest = row_last_col(items.drop_last(), row);
        match items.last().pos {
            Some(p) => if p.0 == row && p.1 > rest {
                p.1
            } else {
                rest
            },
            None => rest,
        }
    }
}

/// Where the focused item of `st` sits, if it has been laid out.
pub open spec fn focus_pos(items: Seq<GridItem>, st: SelState) -> Option<GridPos> {
    match st.focus {
        Some(i) => if i < items.len() {
            items[i as int].pos
        } else {
            None
        },
        None => None,
    }
}

/// `a`, or `b` when `a` is `None`.
pub open spec fn either(a: Option<GridPos>, b: Option<GridPos>) -> Option<GridPos> {
    match a {
        Some(_) => a,
        None => b,
    }
}

/// Where a move starts from: the focus, or failing it the first (with
/// `first`) or last selected item.
pub open spec fn move_origin(items: Seq<GridItem>, st: SelState, first: bool) -> Option<GridPos> {
    either(focus_pos(items, st), selected_extreme(items, st.selected, first))
}

/// The selection with the item at `origin` selected first when nothing had
/// the focus, as every move does before it steps.
pub open spec fn focused_origin(items: Seq<GridItem>, st: SelState, origin: GridPos, shift: bool) -> SelState {
    if st.focus is None {
        after_position(items, st, origin.0, origin.1, shift).0
    } else {
        st
    }
}

/// The selection after a move with nowhere to start from: the first item on
/// screen, or the first position, is selected.
pub open spec fn from_screen(items: Seq<GridItem>, st: SelState, first_visible: Option<GridPos>, shift: bool) -> SelState {
    let p = match first_visible {
        Some(p) => p,
        None => (0usize, 0usize),
    };
    after_position(items, st, p.0, p.1, shift).0
}

/// Select the item at `p` from `st`, or, when none sits there, select
/// `origin` again so that the current item stays selected.
pub open spec fn step_or_stay(items: Seq<GridItem>, st: SelState, p: GridPos, origin: GridPos, shift: bool) -> SelState {
    let (st2, ok) = after_position(items, st, p.0, p.1, shift);
    if ok {
        st2
    } else {
        after_position(items, st2, origin.0, origin.1, shift).0
    }
}

/// The selection after moving down a row.
pub open spec fn moved_down(items: Seq<GridItem>, st: SelState, shift: bool, first_visible: Option<GridPos>) -> SelState {
    match move_origin(items, st, false) {
        Some(o) => step_or_stay(items, focused_origin(items, st, o, shift), ((o.0 + 1) as usize, o.1), o, shift),
        None => from_screen(items, st, first_visible, shift),
    }
}

/// The selection after moving up a row.
pub open spec fn moved_up(items: Seq<GridItem>, st: SelState, shift: bool, first_visible: Option<GridPos>) -> SelState {
    match move_origin(items, st, true) {
        Some(o) => {
            let st1 = focused_origin(items, st, o, shift);
            if o.0 >= 1 {
                step_or_stay(items, st1, ((o.0 - 1) as usize, o.1), o, shift)
            } else {
                after_position(items, st1, o.0, o.1, shift).0
            }
        },
        None => from_screen(items, st, first_visible, shift),
    }
}

/// The selection after moving right: the next item in the row, else the
/// first of the next row.
pub open spec fn moved_right(items: Seq<GridItem>, st: SelState, shift: bool, first_visible: Option<GridPos>) -> SelState {
    match move_origin(items, st, false) {
        Some(o) => {
            let st1 = focused_origin(items, st, o, shift);
            let (st2, ok) = after_position(items, st1, o.0, (o.1 + 1) as usize, shift);
            if ok {
                st2
            } else {
                step_or_stay(items, st2, ((o.0 + 1) as usize, 0usize), o, shift)
            }
        },
        None => from_screen(items, st, first_visible, shift),
    }
}

/// From `st`, the last item of the row above `o`, or `o` again.
pub open spec fn previous_row_end(items: Seq<GridItem>, st: SelState, o: GridPos, shift: bool) -> SelState {
    if o.0 >= 1 {
        step_or_stay(items, st, ((o.0 - 1) as usize, row_last_col(items, (o.0 - 1) as usize)), o, shift)
    } else {
        after_position(items, st, o.0, o.1, shift).0
    }
}

/// The selection after moving left: the previous item in the row, else the
/// last of the row above.
pub open spec fn moved_left(items: Seq<GridItem>, st: SelState, shift: bool, first_visible: Option<GridPos>) -> SelState {
    match move_origin(items, st, true) {
        Some(o) => {
            let st1 = focused_origin(items, st, o, shift);
            if o.1 >= 1 {
                let (st2, ok) = after_position(items, st1, o.0, (o.1 - 1) as usize, shift);
                if ok {
                    st2
                } else {
                    previous_row_end(items, st2, o, shift)
                }
            } else {
                previous_row_end(items, st1, o, shift)
            }
        },
        None => from_screen(items, st, first_visible, shift),
    }
}

/// The selection after moving a page down, `rows` rows at least one: to the
/// same column that many rows down, else to the last item at or above that
/// row.
pub open spec fn moved_page_down(items: Seq<GridItem>, st: SelState, shift: bool, rows: usize) -> SelState {
    match move_origin(items, st, false) {
        Some(o) => {
            let st1 = focused_origin(items, st, o, shift);
            let step: int = if rows >= 1 { rows as int } else { 1 };
            let target: usize = if o.0 + step > usize::MAX { usize::MAX } else { (o.0 + step) as usize };
            let (st2, ok) = after_position(items, st1, target, o.1, shift);
            if ok {
                st2
            } else {
                match bounded_extreme(items, target, true) {
                    Some(b) => after_position(items, st2, b.0, b.1, shift).0,
                    None => st2,
                }
            }
        },
        None => after_position(items, st, 0, 0, shift).0,
    }
}

/// The selection after moving a page up, `rows` rows at least one: to the
/// same column that many rows up, else to the first item at or below that
/// row.
pub open spec fn moved_page_up(items: Seq<GridItem>, st: SelState, shift: bool, rows: usize) -> SelState {
    match move_origin(items, st, true) {
        Some(o) => {
            let st1 = focused_origin(items, st, o, shift);
            let step: int = if rows >= 1 { rows as int } else { 1 };
            let target: usize = if o.0 - step < 0 { 0 } else { (o.0 - step) as usize };
            let (st2, ok) = after_position(items, st1, target, o.1, shift);
            if ok {
                st2
            } else {
                match bounded_extreme(items, target, false) {
                    Some(b) => after_position(items, st2, b.0, b.1, shift).0,
                    None => st2,
                }
            }
        },
        None => after_position(items, st, 0, 0, shift).0,
    }
}

/// Every laid-out item has room for one more row and column after it.
pub open spec fn positions_bounded(items: Seq<GridItem>) -> bool {
    forall|i: int|
        0 <= i < items.len() ==> ((#[trigger] items[i]).pos matches Some(p) ==> p.0 < usize::MAX
            && p.1 < usize::MAX)
}

impl Selection {
    fn focus_or_extreme(&self, first: bool) -> (r: Option<GridPos>)
        requires
            self.wf(),
        ensures
            r == move_origin(self.items(), self.state(), first),
    {
        match self.select_focus_pos_opt() {
            Some(p) => Some(p),
            None => self.extreme_selected_pos(first),
        }
    }

    fn bounded_extreme_pos(&self, bound: usize, at_most: bool) -> (r: Option<GridPos>)
        ensures
            r == bounded_extreme(self.items(), bound, at_most),
    {
        let n = self.items.len();
        let mut best: Option<GridPos> = None;
        let mut i: usize = 0;
        while i < n
            invariant
                i <= n,
                n == self.items@.len(),
                best == bounded_extreme(self.items@.take(i as int), bound, at_most),
            decreases n - i,
        {
            assert(self.items@.take(i + 1).drop_last() =~= self.items@.take(i as int));
            assert(self.items@.take(i + 1).last() == self.items@[i as int]);
            if let Some(p) = self.items[i].pos {
                if (at_most && p.0 <= bound) || (!at_most && p.0 >= bound) {
                    best = match best {
                        Some(b) => if !at_most {
                            if before_exec(p, b) {
                                Some(p)
                            } else {
                                Some(b)
                            }
                        } else {
                            if before_exec(b, p) {
                                Some(p)
                            } else {
                                Some(b)
                            }
                        },
                        None => Some(p),
                    };
                }
            }
            i = i + 1;
        }
        assert(self.items@.take(n as int) =~= self.items@);
        best
    }

    fn last_col_in_row(&self, row: usize) -> (r: usize)
        ensures
            r == row_last_col(self.items(), row),
    {
        let n = self.items.len();
        let mut col: usize = 0;
        let mut i: usize = 0;
        while i < n
            invariant
                i <= n,
                n == self.items@.len(),
                col == row_last_col(self.items@.take(i as int), row),
            decreases n - i,
        {
            assert(self.items@.take(i + 1).drop_last() =~= self.items@.take(i as int));
            assert(self.items@.take(i + 1).last() == self.items@[i as int]);
            if let Some(p) = self.items[i].pos {
                if p.0 == row && p.1 > col {
                    col = p.1;
                }
            }
            i = i + 1;
        }
        assert(self.items@.take(n as int) =~= self.items@);
        col
    }

    /// Move the selection down a row, clearing any highlight.
    /// `first_visible` is where the first item on screen sits, for when
    /// there is nothing to start from.
    pub fn item_down(&mut self, shift: bool, first_visible: Option<GridPos>)
        requires
            old(self).wf(),
            positions_bounded(old(self).items()),
        ensures
            final(self).wf(),
            final(self).state() == moved_down(old(self).items(), old(self).state(), shift, first_visible),
            final(self).highlighted() == all(old(self).items().len(), false),
            final(self).items() == old(self).items(),
            final(self).cut() == old(self).cut(),
    {
        self.dehighlight_all();
        match self.focus_or_extreme(false) {
            Some((row, col)) => {
                assert(exists|i: int| 0 <= i < self.items@.len() && self.items@[i].pos == Some((row, col))) by {
                    lemma_origin_is_laid_out(self.items(), self.state(), false);
                }
                if self.focus.is_none() {
                    self.select_position(row, col, shift);
                }
                if !self.select_position(row + 1, col, shift) {
                    self.select_position(row, col, shift);
                }
            },
            None => {
                let (row, col) = match first_visible {
                    Some(p) => p,
                    None => (0, 0),
                };
                self.select_position(row, col, shift);
            },
        }
    }

    /// Move the selection up a row, clearing any highlight.
    pub fn item_up(&mut self, shift: bool, first_visible: Option<GridPos>)
        requires
            old(self).wf(),
        ensures
            final(self).wf(),
            final(self).state() == moved_up(old(self).items(), old(self).state(), shift, first_visible),
            final(self).highlighted() == all(old(self).items().len(), false),
            final(self).items() == old(self).items(),
            final(self).cut() == old(self).cut(),
    {
        self.dehighlight_all();
        match self.focus_or_extreme(true) {
            Some((row, col)) => {
                if self.focus.is_none() {
                    self.select_position(row, col, shift);
                }
                let moved = if row >= 1 {
                    self.select_position(row - 1, col, shift)
                } else {
                    false
                };
                if !moved {
                    self.select_position(row, col, shift);
                }
            },
            None => {
                let (row, col) = match first_visible {
                    Some(p) => p,
                    None => (0, 0),
                };
                self.select_position(row, col, shift);
            },
        }
    }

    /// Move the selection right: the next item in the row, else the first of
    /// the next row. Clears any highlight.
    pub fn item_right(&mut self, shift: bool, first_visible: Option<GridPos>)
        requires
            old(self).wf(),
            positions_bounded(old(self).items()),
        ensures
            final(self).wf(),
            final(self).state() == moved_right(old(self).items(), old(self).state(), shift, first_visible),
            final(self).highlighted() == all(old(self).items().len(), false),
            final(self).items() == old(self).items(),
            final(self).cut() == old(self).cut(),
    {
        self.dehighlight_all();
        match self.focus_or_extreme(false) {
            Some((row, col)) => {
                proof {
                    lemma_origin_is_laid_out(self.items(), self.state(), false);
                }
                if self.focus.is_none() {
                    self.select_position(row, col, shift);
                }
                if !self.select_position(row, col + 1, shift) {
                    if !self.select_position(row + 1, 0, shift) {
                        self.select_position(row, col, shift);
                    }
                }
            },
            None => {
                let (row, col) = match first_visible {
                    Some(p) => p,
                    None => (0, 0),
                };
                self.select_position(row, col, shift);
            },
        }
    }

    /// Move the selection left: the previous item in the row, else the last
    /// of the row above. Clears any highlight.
    pub fn item_left(&mut self, shift: bool, first_visible: Option<GridPos>)
        requires
            old(self).wf(),
        ensures
            final(self).wf(),
            final(self).state() == moved_left(old(self).items(), old(self).state(), shift, first_visible),
            final(self).highlighted() == all(old(self).items().len(), false),
            final(self).items() == old(self).items(),
            final(self).cut() == old(self).cut(),
    {
        self.dehighlight_all();
        match self.focus_or_extreme(true) {
            Some((row, col)) => {
                if self.focus.is_none() {
                    self.select_position(row, col, shift);
                }
                let moved = if col >= 1 {
                    self.select_position(row, col - 1, shift)
                } else {
                    false
                };
                if !moved {
                    let moved_up = if row >= 1 {
                        let last = self.last_col_in_row(row - 1);
                        self.select_position(row - 1, last, shift)
                    } else {
                        false
                    };
                    if !moved_up {
                        self.select_position(row, col, shift);
                    }
                }
            },
            None => {
                let (row, col) = match first_visible {
                    Some(p) => p,
                    None => (0, 0),
                };
                self.select_position(row, col, shift);
            },
        }
    }

    /// Move the selection a page down, `rows_per_page` rows. Clears any
    /// highlight.
    pub fn item_page_down(&mut self, shift: bool, rows_per_page: usize)
        requires
            old(self).wf(),
        ensures
            final(self).wf(),
            final(self).state() == moved_page_down(old(self).items(), old(self).state(), shift, rows_per_page),
            final(self).highlighted() == all(old(self).items().len(), false),
            final(self).items() == old(self).items(),
            final(self).cut() == old(self).cut(),
    {
        self.dehighlight_all();
        match self.focus_or_extreme(false) {
            Some((row, col)) => {
                if self.focus.is_none() {
                    self.select_position(row, col, shift);
                }
                let step = if rows_per_page >= 1 {
                    rows_per_page
                } else {
                    1
                };
                let target = row.saturating_add(step);
                if !self.select_position(target, col, shift) {
                    if let Some((r, c)) = self.bounded_extreme_pos(target, true) {
                        self.select_position(r, c, shift);
                    }
                }
            },
            None => {
                self.select_position(0, 0, shift);
            },
        }
    }

    /// Move the selection a page up, `rows_per_page` rows. Clears any
    /// highlight.
    pub fn item_page_up(&mut self, shift: bool, rows_per_page: usize)
        requires
            old(self).wf(),
        ensures
            final(self).wf(),
            final(self).state() == moved_page_up(old(self).items(), old(self).state(), shift, rows_per_page),
            final(self).highlighted() == all(old(self).items().len(), false),
            final(self).items() == old(self).items(),
            final(self).cut() == old(self).cut(),
    {
        self.dehighlight_all();
        match self.focus_or_extreme(true) {
            Some((row, col)) => {
                if self.focus.is_none() {
                    self.select_position(row, col, shift);
                }
                let step = if rows_per_page >= 1 {
                    rows_per_page
                } else {
                    1
                };
                let target = row.saturating_sub(step);
                if !self.select_position(target, col, shift) {
                    if let Some((r, c)) = self.bounded_extreme_pos(target, false) {
                        self.select_position(r, c, shift);
                    }
                }
            },
            None => {
                self.select_position(0, 0, shift);
            },
        }
    }
}

/// Exactly one of `items`, the one at `j`, is laid out at `p`.
pub open spec fn only_item_at(items: Seq<GridItem>, j: int, p: GridPos) -> bool {
    &&& 0 <= j < items.len()
    &&& items[j].pos == Some(p)
    &&& forall|i: int| 0 <= i < items.len() && i != j ==> (#[trigger] items[i]).pos != Some(p)
}

/// None of `items` is laid out at `p`.
pub open spec fn nothing_at(items: Seq<GridItem>, p: GridPos) -> bool {
    forall|i: int| 0 <= i < items.len() ==> (#[trigger] items[i]).pos != Some(p)
}

proof fn lemma_last_at_only(items: Seq<GridItem>, j: int, p: GridPos)
    requires
        only_item_at(items, j, p),
    ensures
        last_at(items, p) == Some(j as usize),
    decreases items.len(),
{
    if j != items.len() - 1 {
        let rest = items.drop_last();
        assert(items[items.len() - 1].pos != Some(p));
        assert forall|i: int| 0 <= i < rest.len() && i != j implies (#[trigger] rest[i]).pos != Some(p) by {
            assert(rest[i] == items[i]);
        }
        assert(rest[j] == items[j]);
        lemma_last_at_only(rest, j, p);
    }
}

proof fn lemma_last_at_nothing(items: Seq<GridItem>, p: GridPos)
    requires
        nothing_at(items, p),
    ensures
        last_at(items, p) is None,
    decreases items.len(),
{
    if items.len() > 0 {
        let rest = items.drop_last();
        assert(items[items.len() - 1].pos != Some(p));
        assert forall|i: int| 0 <= i < rest.len() implies (#[trigger] rest[i]).pos != Some(p) by {
            assert(rest[i] == items[i]);
        }
        lemma_last_at_nothing(rest, p);
    }
}

/// With the item at `j` the only one at `p`, selecting `p` without shift
/// focuses it and selects it alone.
proof fn lemma_select_only(items: Seq<GridItem>, st: SelState, j: int, p: GridPos)
    requires
        only_item_at(items, j, p),
    ensures
        after_position(items, st, p.0, p.1, false).1,
        after_position(items, st, p.0, p.1, false).0.focus == Some(j as usize),
        after_position(items, st, p.0, p.1, false).0.selected.len() == items.len(),
        forall|i: int|
            0 <= i < items.len() ==> #[trigger] after_position(items, st, p.0, p.1, false).0.selected[i] == (i
                == j),
{
    lemma_last_at_only(items, j, p);
    let sel = after_position(items, st, p.0, p.1, false).0.selected;
    assert forall|i: int| 0 <= i < items.len() implies #[trigger] sel[i] == (i == j) by {
        if i != j {
            assert(items[i].pos != Some(p));
        }
    }
}

/// The largest column laid out in `row` is `m`: an item sits at `(row, m)`
/// and none of the row lies further right.
pub open spec fn row_ends_at(items: Seq<GridItem>, row: usize, m: usize) -> bool {
    &&& exists|k: int| 0 <= k < items.len() && (#[trigger] items[k]).pos == Some((row, m))
    &&& forall|i: int|
        0 <= i < items.len() ==> ((#[trigger] items[i]).pos matches Some(q) ==> (q.0 == row ==> q.1 <= m))
}

proof fn lemma_row_last_col_is_end(items: Seq<GridItem>, row: usize, m: usize)
    requires
        forall|i: int|
            0 <= i < items.len() ==> ((#[trigger] items[i]).pos matches Some(q) ==> (q.0 == row ==> q.1 <= m)),
    ensures
        row_last_col(items, row) <= m,
        (exists|k: int| 0 <= k < items.len() && (#[trigger] items[k]).pos == Some((row, m))) ==> row_last_col(
            items,
            row,
        ) == m,
    decreases items.len(),
{
    if items.len() > 0 {
        let rest = items.drop_last();
        assert forall|i: int| 0 <= i < rest.len() implies ((#[trigger] rest[i]).pos matches Some(q) ==> (q.0 == row
            ==> q.1 <= m)) by {
            assert(rest[i] == items[i]);
        }
        lemma_row_last_col_is_end(rest, row, m);
        assert(items[items.len() - 1].pos matches Some(q) ==> (q.0 == row ==> q.1 <= m));
        if exists|k: int| 0 <= k < items.len() && (#[trigger] items[k]).pos == Some((row, m)) {
            let k = choose|k: int| 0 <= k < items.len() && (#[trigger] items[k]).pos == Some((row, m));
            if k < items.len() - 1 {
                assert(rest[k] == items[k]);
            }
        }
    }
}

/// Moving right, without shift, from the focused item `f` at `(r, c)`: to
/// the item just right of it in its row when there is one; from the end of
/// its row (nothing at `(r, c + 1)`) to the item at the start of the next
/// row; and with neither, the focus stays on `f`. The item moved to is then
/// the only one selected.
pub proof fn lemma_right_moves_along_then_wraps(
    items: Seq<GridItem>,
    st: SelState,
    first_visible: Option<GridPos>,
    f: usize,
    r: usize,
    c: usize,
    j: int,
)
    requires
        st.focus == Some(f),
        f < items.len(),
        items[f as int].pos == Some((r, c)),
        positions_bounded(items),
    ensures
        only_item_at(items, j, (r, (c + 1) as usize)) ==> moved_right(items, st, false, first_visible).focus
            == Some(j as usize),
        nothing_at(items, (r, (c + 1) as usize)) && only_item_at(items, j, ((r + 1) as usize, 0usize)) ==> {
            &&& moved_right(items, st, false, first_visible).focus == Some(j as usize)
            &&& forall|i: int|
                0 <= i < items.len() ==> #[trigger] moved_right(items, st, false, first_visible).selected[i] == (i
                    == j)
        },
        nothing_at(items, (r, (c + 1) as usize)) && nothing_at(items, ((r + 1) as usize, 0usize)) && only_item_at(
            items,
            f as int,
            (r, c),
        ) ==> moved_right(items, st, false, first_visible).focus == Some(f),
{
    assert(items[f as int].pos matches Some(q) ==> q.0 < usize::MAX && q.1 < usize::MAX);
    assert(focus_pos(items, st) == Some((r, c)));
    let right = (r, (c + 1) as usize);
    let below = ((r + 1) as usize, 0usize);
    let st2 = after_position(items, st, right.0, right.1, false).0;
    if only_item_at(items, j, right) {
        lemma_select_only(items, st, j, right);
    }
    if nothing_at(items, right) {
        lemma_last_at_nothing(items, right);
        if only_item_at(items, j, below) {
            lemma_select_only(items, st2, j, below);
        }
        if nothing_at(items, below) && only_item_at(items, f as int, (r, c)) {
            lemma_last_at_nothing(items, below);
            let st3 = after_position(items, st2, below.0, below.1, false).0;
            lemma_select_only(items, st3, f as int, (r, c));
        }
    }
}

/// Moving left, without shift, from the focused item `f` at `(r, c)`: to the
/// item just left of it in its row when there is one; from the start of its
/// row (column 0, or nothing at `(r, c - 1)`) to the last item of the row
/// above, the one at the largest column laid out there. The item moved to is
/// then the only one selected.
pub proof fn lemma_left_moves_along_then_wraps(
    items: Seq<GridItem>,
    st: SelState,
    first_visible: Option<GridPos>,
    f: usize,
    r: usize,
    c: usize,
    m: usize,
    j: int,
)
    requires
        st.focus == Some(f),
        f < items.len(),
        items[f as int].pos == Some((r, c)),
    ensures
        c >= 1 && only_item_at(items, j, (r, (c - 1) as usize)) ==> moved_left(
            items,
            st,
            false,
            first_visible,
        ).focus == Some(j as usize),
        (c == 0 || nothing_at(items, (r, (c - 1) as usize))) && r >= 1 && row_ends_at(items, (r - 1) as usize, m)
            && only_item_at(items, j, ((r - 1) as usize, m)) ==> {
            &&& moved_left(items, st, false, first_visible).focus == Some(j as usize)
            &&& forall|i: int|
                0 <= i < items.len() ==> #[trigger] moved_left(items, st, false, first_visible).selected[i] == (i
                    == j)
        },
{
    assert(focus_pos(items, st) == Some((r, c)));
    if c >= 1 && only_item_at(items, j, (r, (c - 1) as usize)) {
        lemma_select_only(items, st, j, (r, (c - 1) as usize));
    }
    if (c == 0 || nothing_at(items, (r, (c - 1) as usize))) && r >= 1 && row_ends_at(items, (r - 1) as usize, m)
        && only_item_at(items, j, ((r - 1) as usize, m)) {
        lemma_row_last_col_is_end(items, (r - 1) as usize, m);
        let above = ((r - 1) as usize, m);
        if c >= 1 {
            lemma_last_at_nothing(items, (r, (c - 1) as usize));
            let st2 = after_position(items, st, r, (c - 1) as usize, false).0;
            lemma_select_only(items, st2, j, above);
        } else {
            lemma_select_only(items, st, j, above);
        }
    }
}

/// Where a move starts from is where some item was laid out.
proof fn lemma_origin_is_laid_out(items: Seq<GridItem>, st: SelState, first: bool)
    requires
        move_origin(items, st, first) is Some,
    ensures
        exists|i: int| 0 <= i < items.len() && items[i].pos == move_origin(items, st, first),
{
    match focus_pos(items, st) {
        Some(p) => {
            let i = st.focus.unwrap();
            assert(items[i as int].pos == Some(p));
        },
        None => {
            lemma_selected_extreme_laid_out(items, st.selected, first);
        },
    }
}

proof fn lemma_selected_extreme_laid_out(items: Seq<GridItem>, selected: Seq<bool>, first: bool)
    requires
        selected_extreme(items, selected, first) is Some,
    ensures
        exists|i: int| 0 <= i < items.len() && items[i].pos == selected_extreme(items, selected, first),
    decreases items.len(),
{
    if items.len() > 0 && selected.len() > 0 {
        let rest = selected_extreme(items.drop_last(), selected.drop_last(), first);
        let n = items.len() - 1;
        if rest is Some {
            lemma_selected_extreme_laid_out(items.drop_last(), selected.drop_last(), first);
            let w = choose|i: int| 0 <= i < items.drop_last().len() && items.drop_last()[i].pos == rest;
            assert(items[w] == items.drop_last()[w]);
        }
        if selected.last() && items.last().pos is Some {
            assert(items[n].pos == items.last().pos);
        }
    }
}

/// Whether `r` is the first (or, unless `first`, the last) position, row
/// first, among the selected items that have been laid out.
pub open spec fn is_extreme_selected(
    items: Seq<GridItem>,
    selected: Seq<bool>,
    r: Option<GridPos>,
    first: bool,
) -> bool {
    match r {
        Some(p) => {
            &&& exists|i: int| 0 <= i < items.len() && i < selected.len() && selected[i] && items[i].pos == Some(p)
            &&& forall|i: int|
                0 <= i < items.len() && i < selected.len() && selected[i] ==> match items[i].pos {
                    Some(q) => if first {
                        !before(q, p)
                    } else {
                        !before(p, q)
                    },
                    None => true,
                }
        },
        None => forall|i: int|
            0 <= i < items.len() && i < selected.len() && selected[i] ==> items[i].pos is None,
    }
}

proof fn lemma_extreme_step(
    items: Seq<GridItem>,
    selected: Seq<bool>,
    item: GridItem,
    sel: bool,
    old_best: Option<GridPos>,
    best: Option<GridPos>,
    first: bool,
)
    requires
        items.len() == selected.len(),
        is_extreme_selected(items, selected, old_best, first),
        best == if sel && item.pos is Some {
            match old_best {
                Some(b) => if first {
                    if before(item.pos.unwrap(), b) {
                        item.pos
                    } else {
                        Some(b)
                    }
                } else {
                    if before(b, item.pos.unwrap()) {
                        item.pos
                    } else {
                        Some(b)
                    }
                },
                None => item.pos,
            }
        } else {
            old_best
        },
    ensures
        is_extreme_selected(items.push(item), selected.push(sel), best, first),
{
    let it = items.push(item);
    let se = selected.push(sel);
    let n = items.len() as int;
    assert forall|i: int| 0 <= i < n implies it[i] == items[i] && se[i] == selected[i] by {}
    assert(it[n] == item && se[n] == sel);
    match best {
        Some(p) => {
            if sel && item.pos == Some(p) {
                assert(0 <= n < it.len() && n < se.len() && se[n] && it[n].pos == Some(p));
            } else {
                let w = choose|i: int|
                    0 <= i < items.len() && i < selected.len() && selected[i] && items[i].pos == Some(p);
                assert(it[w] == items[w] && se[w] == selected[w]);
            }
        },
        None => {},
    }
}

/// The last of `flags` that is set.
pub open spec fn last_where(flags: Seq<bool>) -> Option<usize>
    decreases flags.len(),
{
    if flags.len() == 0 {
        None
    } else if flags.last() {
        Some((flags.len() - 1) as usize)
    } else {
        last_where(flags.drop_last())
    }
}

/// Whether `item` has a path that is one of `paths`.
pub open spec fn has_path_among(item: GridItem, paths: Seq<String>) -> bool {
    match item.path {
        Some(p) => exists|j: int| 0 <= j < paths.len() && path_eq(paths[j]@, p@),
        None => false,
    }
}

fn item_path_among(item: &GridItem, paths: &[String]) -> (r: bool)
    ensures
        r == has_path_among(*item, paths@),
{
    match &item.path {
        Some(p) => {
            let mut j: usize = 0;
            while j < paths.len()
                invariant
                    j <= paths@.len(),
                    item.path == Some(*p),
                    forall|k: int| 0 <= k < j ==> !path_eq(paths@[k]@, p@),
                decreases paths@.len() - j,
            {
                if same_path(paths[j].as_str(), p.as_str()) {
                    assert(path_eq(paths@[j as int]@, p@));
                    return true;
                }
                j = j + 1;
            }
            false
        },
        None => false,
    }
}

/// Flags that are all `b`, one per item of `n`.
pub open spec fn all(n: nat, b: bool) -> Seq<bool> {
    Seq::new(n, |i: int| b)
}

/// Where a search for a typed prefix starts when it may stay on the focused
/// item: the focus itself in the order of the search.
pub open spec fn index_before(focus: Option<usize>, forward: bool) -> int {
    match focus {
        None => 0,
        Some(i) => if forward {
            i as int
        } else {
            i + 1
        },
    }
}

/// Where a search for a typed prefix starts when it moves past the focused
/// item.
pub open spec fn index_after(focus: Option<usize>, forward: bool) -> int {
    match focus {
        None => 0,
        Some(i) => if forward {
            i + 1
        } else {
            i as int
        },
    }
}

/// The index the search visits at step `j`: forward, the items from `start`
/// to the end and then those before it; backward, the same order reversed.
pub open spec fn search_index(len: int, start: int, j: int, forward: bool) -> int {
    if forward {
        if start + j < len {
            start + j
        } else {
            start + j - len
        }
    } else {
        if j < start {
            start - 1 - j
        } else {
            len - 1 - (j - start)
        }
    }
}

/// Whether the lowercase name of `item` starts with `prefix`.
pub open spec fn name_matches(item: GridItem, prefix: Seq<char>) -> bool {
    has_prefix(lowercase(item.name@), prefix)
}

/// The first item from step `j` of the search on whose name `prefix` matches.
pub open spec fn scan_from(items: Seq<GridItem>, prefix: Seq<char>, start: int, forward: bool, j: int) -> Option<usize>
    decreases items.len() - j,
{
    if j < 0 || j >= items.len() {
        None
    } else {
        let k = search_index(items.len() as int, start, j, forward);
        if name_matches(items[k], prefix) {
            Some(k as usize)
        } else {
            scan_from(items, prefix, start, forward, j + 1)
        }
    }
}

/// The first item of a search from `start` on whose name `prefix` matches;
/// none when `start` lies past the items.
pub open spec fn first_prefix_from(items: Seq<GridItem>, prefix: Seq<char>, start: int, forward: bool) -> Option<usize> {
    if start < 0 || start > items.len() {
        None
    } else {
        scan_from(items, prefix, start, forward, 0)
    }
}

/// The item that typing `prefix` (already in lower case) selects: a single
/// character moves past the focus, a longer prefix may stay on it, and a
/// prefix of one repeated character that matches nothing cycles through the
/// items starting with that character.
pub open spec fn prefix_search(items: Seq<GridItem>, prefix: Seq<char>, focus: Option<usize>, forward: bool) -> Option<usize> {
    let single = prefix.len() == 1;
    let start = if single {
        index_after(focus, forward)
    } else {
        index_before(focus, forward)
    };
    let found = first_prefix_from(items, prefix, start, forward);
    if found is Some || single {
        found
    } else if prefix.len() == 0 {
        None
    } else if exists|k: int| #![trigger prefix[k]] 0 <= k < prefix.len() && prefix[k] != prefix[0] {
        None
    } else {
        first_prefix_from(items, seq![prefix[0]], index_after(focus, forward), forward)
    }
}

/// Flags that are all false but at `found`, when there is one.
pub open spec fn only(n: nat, found: Option<usize>) -> Seq<bool> {
    Seq::new(n, |i: int| found == Some(i as usize))
}

proof fn lemma_scan_found(items: Seq<GridItem>, prefix: Seq<char>, start: int, forward: bool, j: int)
    requires
        0 <= start <= items.len() <= usize::MAX,
    ensures
        scan_from(items, prefix, start, forward, j) matches Some(k) ==> k < items.len() && name_matches(
            items[k as int],
            prefix,
        ),
    decreases items.len() - j,
{
    if 0 <= j < items.len() {
        lemma_scan_found(items, prefix, start, forward, j + 1);
    }
}

proof fn lemma_scan_misses(items: Seq<GridItem>, prefix: Seq<char>, start: int, forward: bool, j: int, m: int)
    requires
        0 <= start <= items.len(),
        0 <= j <= m < items.len(),
        scan_from(items, prefix, start, forward, j) is None,
    ensures
        !name_matches(items[search_index(items.len() as int, start, m, forward)], prefix),
    decreases m - j,
{
    if j < m {
        lemma_scan_misses(items, prefix, start, forward, j + 1, m);
    }
}

/// A search from any start within the items finds an item whose lowercase
/// name starts with the prefix whenever there is one, and what it finds is
/// such an item.
pub proof fn lemma_search_visits_every_item(items: Seq<GridItem>, prefix: Seq<char>, start: int, forward: bool, i: int)
    requires
        0 <= start <= items.len() <= usize::MAX,
        0 <= i < items.len(),
        name_matches(items[i], prefix),
    ensures
        first_prefix_from(items, prefix, start, forward) matches Some(k) && k < items.len()
            && name_matches(items[k as int], prefix),
{
    let len = items.len() as int;
    let m = if forward {
        if i >= start {
            i - start
        } else {
            i + len - start
        }
    } else {
        if i < start {
            start - 1 - i
        } else {
            start + len - 1 - i
        }
    };
    assert(search_index(len, start, m, forward) == i);
    if scan_from(items, prefix, start, forward, 0) is None {
        lemma_scan_misses(items, prefix, start, forward, 0, m);
    }
    lemma_scan_found(items, prefix, start, forward, 0);
}

/// Typing a prefix selects an item whose lowercase name starts with the
/// prefix, or, for a prefix of one repeated character, with that character;
/// and while the focus lies within the items, typing a prefix that some item's
/// lowercase name starts with always selects an item.
pub proof fn lemma_prefix_search(items: Seq<GridItem>, prefix: Seq<char>, focus: Option<usize>, forward: bool)
    requires
        items.len() <= usize::MAX,
        focus matches Some(f) ==> f < items.len(),
    ensures
        prefix_search(items, prefix, focus, forward) matches Some(k) ==> k < items.len() && (name_matches(
            items[k as int],
            prefix,
        ) || (prefix.len() > 0 && name_matches(items[k as int], seq![prefix[0]]))),
        (exists|i: int| 0 <= i < items.len() && name_matches(#[trigger] items[i], prefix)) ==> prefix_search(
            items,
            prefix,
            focus,
            forward,
        ) is Some,
{
    let single = prefix.len() == 1;
    let start = if single {
        index_after(focus, forward)
    } else {
        index_before(focus, forward)
    };
    lemma_scan_found(items, prefix, start, forward, 0);
    if prefix.len() > 0 {
        lemma_scan_found(items, seq![prefix[0]], index_after(focus, forward), forward, 0);
    }
    if exists|i: int| 0 <= i < items.len() && name_matches(#[trigger] items[i], prefix) {
        let i = choose|i: int| 0 <= i < items.len() && name_matches(#[trigger] items[i], prefix);
        lemma_search_visits_every_item(items, prefix, start, forward, i);
    }
}

/// Typing a prefix into a selection whose focus, if any, is one of its items
/// selects an item whenever some item's name, in lower case, starts with the
/// prefix in lower case: `select_by_prefix` then returns true.
pub proof fn lemma_select_by_prefix_finds_any_match(sel: &Selection, prefix: Seq<char>, forward: bool, i: int)
    requires
        sel.wf(),
        sel.focus() matches Some(f) ==> f < sel.items().len(),
        0 <= i < sel.items().len(),
        name_matches(sel.items()[i], lowercase(prefix)),
    ensures
        prefix_search(sel.items(), lowercase(prefix), sel.focus(), forward) is Some,
{
    assert(sel.items.len() == sel.items().len());
    lemma_prefix_search(sel.items(), lowercase(prefix), sel.focus(), forward);
}

impl Selection {
    /// Select the first item in the search from `start` whose lowercase name
    /// starts with `prefix`, and return it.
    fn select_first_prefix_from_index(&mut self, prefix: &[char], start: usize, forward: bool) -> (r: Option<usize>)
        requires
            old(self).wf(),
        ensures
            r == first_prefix_from(old(self).items(), prefix@, start as int, forward),
            r matches Some(k) ==> k < old(self).items().len(),
            final(self).selected() == (match r {
                Some(k) => old(self).selected().update(k as int, true),
                None => old(self).selected(),
            }),
            final(self).wf(),
            final(self).items() == old(self).items(),
            final(self).highlighted() == old(self).highlighted(),
            final(self).cut() == old(self).cut(),
            final(self).focus() == old(self).focus(),
            final(self).range() == old(self).range(),
    {
        let len = self.items.len();
        if start > len {
            return None;
        }
        let mut j: usize = 0;
        while j < len
            invariant
                j <= len,
                start <= len,
                len == self.items@.len(),
                *self == *old(self),
                old(self).wf(),
                scan_from(self.items@, prefix@, start as int, forward, 0) == scan_from(
                    self.items@,
                    prefix@,
                    start as int,
                    forward,
                    j as int,
                ),
            decreases len - j,
        {
            let k: usize = if forward {
                if j < len - start {
                    start + j
                } else {
                    j - (len - start)
                }
            } else {
                if j < start {
                    start - 1 - j
                } else {
                    len - 1 - (j - start)
                }
            };
            assert(k as int == search_index(len as int, start as int, j as int, forward));
            let lower = to_lowercase(self.items[k].name.as_str());
            let lower_chars = chars_of(lower.as_str());
            if has_prefix_chars(&lower_chars, prefix) {
                self.selected.set(k, true);
                return Some(k);
            }
            j = j + 1;
        }
        None
    }

    /// Select the item whose name starts with `prefix`, ignoring case, as
    /// typing does: everything else is deselected and the item found gets
    /// the focus. `forward` is the direction the items are sorted in.
    /// Returns whether an item was found.
    pub fn select_by_prefix(&mut self, prefix: &str, forward: bool) -> (found: bool)
        requires
            old(self).wf(),
        ensures
            final(self).wf(),
            final(self).focus() == prefix_search(old(self).items(), lowercase(prefix@), old(self).focus(), forward),
            found == final(self).focus() is Some,
            final(self).selected() == only(old(self).items().len(), final(self).focus()),
            final(self).items() == old(self).items(),
            final(self).highlighted() == old(self).highlighted(),
            final(self).cut() == old(self).cut(),
            final(self).range() == old(self).range(),
    {
        let lower = to_lowercase(prefix);
        let p = chars_of(lower.as_str());
        let focus = self.focus;
        self.focus = None;
        let n = self.items.len();
        let mut i: usize = 0;
        while i < n
            invariant
                i <= n,
                n == self.items@.len(),
                self.wf(),
                self.items@ == old(self).items@,
                self.highlighted@ == old(self).highlighted@,
                self.cut@ == old(self).cut@,
                self.focus is None,
                self.range == old(self).range,
                forall|j: int| 0 <= j < i ==> !self.selected@[j],
            decreases n - i,
        {
            self.selected.set(i, false);
            i = i + 1;
        }
        assert(self.selected@ =~= all(n as nat, false));
        let single = p.len() == 1;
        let ghost items = self.items@;
        let ghost lp = lowercase(prefix@);
        let start: Option<usize> = if single {
            index_after_focus(focus, forward)
        } else {
            index_before_focus(focus, forward)
        };
        let ghost cleared = self.selected@;
        let found = match start {
            Some(s) => self.select_first_prefix_from_index(&p, s, forward),
            None => None,
        };
        assert(self.selected@ == match found {
            Some(k) => cleared.update(k as int, true),
            None => cleared,
        });
        assert(p@ == lp);
        assert(found == first_prefix_from(
            items,
            lp,
            if single {
                index_after(focus, forward)
            } else {
                index_before(focus, forward)
            },
            forward,
        ));
        self.focus = found;
        if found.is_some() || single {
            assert forall|j: int| 0 <= j < n implies self.selected@[j] == (found == Some(j as usize)) by {
                if found == Some(j as usize) {
                    assert(found->0 == j);
                }
            }
            assert(self.selected@ =~= only(n as nat, found));
            return found.is_some();
        }
        if p.len() == 0 {
            return false;
        }
        if !all_same_as_first(&p) {
            return false;
        }
        let first = p[0];
        let one = vec![first];
        assert(one@ =~= seq![lp[0]]);
        let ghost cleared2 = self.selected@;
        assert(cleared2 == cleared);
        let again = match index_after_focus(focus, forward) {
            Some(s) => self.select_first_prefix_from_index(&one, s, forward),
            None => None,
        };
        assert(self.selected@ == match again {
            Some(k) => cleared.update(k as int, true),
            None => cleared,
        });
        self.focus = again;
        assert forall|j: int| 0 <= j < n implies self.selected@[j] == (again == Some(j as usize)) by {
            if again == Some(j as usize) {
                assert(again->0 == j);
            }
        }
        assert(self.selected@ =~= only(n as nat, again));
        again.is_some()
    }
}

/// Whether every character of `p` is its first one.
fn all_same_as_first(p: &[char]) -> (r: bool)
    requires
        p@.len() > 0,
    ensures
        r == !(exists|k: int| #![trigger p@[k]] 0 <= k < p@.len() && p@[k] != p@[0]),
{
    let first = p[0];
    let mut k: usize = 1;
    while k < p.len()
        invariant
            1 <= k <= p@.len(),
            first == p@[0],
            forall|m: int| #![trigger p@[m]] 0 <= m < k ==> p@[m] == p@[0],
        decreases p@.len() - k,
    {
        if p[k] != first {
            return false;
        }
        k = k + 1;
    }
    true
}

/// Where the search starts when it may stay on the focus; `None` when that
/// lies past the range of `usize`, and so past every item.
fn index_before_focus(focus: Option<usize>, forward: bool) -> (r: Option<usize>)
    ensures
        match r {
            Some(s) => s as int == index_before(focus, forward),
            None => index_before(focus, forward) > usize::MAX,
        },
{
    match focus {
        None => Some(0),
        Some(i) => if forward {
            Some(i)
        } else {
            i.checked_add(1)
        },
    }
}

/// Where the search starts when it moves past the focus; `None` when that
/// lies past the range of `usize`.
fn index_after_focus(focus: Option<usize>, forward: bool) -> (r: Option<usize>)
    ensures
        match r {
            Some(s) => s as int == index_after(focus, forward),
            None => index_after(focus, forward) > usize::MAX,
        },
{
    match focus {
        None => Some(0),
        Some(i) => if forward {
            i.checked_add(1)
        } else {
            Some(i)
        },
    }
}

/// The paths of the selected items that have one, in order.
pub open spec fn selected_paths(items: Seq<GridItem>, selected: Seq<bool>, n: int) -> Seq<Seq<char>>
    decreases n,
{
    if n <= 0 {
        seq![]
    } else {
        let rest = selected_paths(items, selected, n - 1);
        if selected[n - 1] && items[n - 1].path is Some {
            rest.push(items[n - 1].path->0@)
        } else {
            rest
        }
    }
}

/// What a drag out of the view carries: the paths of the selected items,
/// or, when none has one, the path of the item the drag started on.
pub open spec fn drag_paths_spec(items: Seq<GridItem>, selected: Seq<bool>, started_on: usize) -> Seq<Seq<char>> {
    let chosen = selected_paths(items, selected, items.len() as int);
    if chosen.len() > 0 {
        chosen
    } else if started_on < items.len() && items[started_on as int].path is Some {
        seq![items[started_on as int].path->0@]
    } else {
        seq![]
    }
}

/// The selection after a rubber-band drag: with a modifier, an item flips
/// when the rectangle starts or stops covering it; without one, exactly the
/// covered items are selected.
pub open spec fn rect_selection(selected: Seq<bool>, was: Seq<bool>, now: Seq<bool>, toggle: bool) -> Seq<bool> {
    Seq::new(
        selected.len(),
        |i: int|
            if toggle {
                if was[i] == now[i] {
                    selected[i]
                } else {
                    !selected[i]
                }
            } else {
                now[i]
            },
    )
}

impl Selection {
    /// The paths a file drag that started on item `started_on` carries.
    pub fn drag_paths(&self, started_on: usize) -> (r: Vec<String>)
        requires
            self.wf(),
        ensures
            r@.map_values(|s: String| s@) == drag_paths_spec(self.items(), self.selected(), started_on),
    {
        let n = self.items.len();
        let out = self.selected_path_list();
        if out.len() > 0 {
            return out;
        }
        if started_on < n {
            match &self.items[started_on].path {
                Some(p) => {
                    let v = vec![p.clone()];
                    assert(v@.map_values(|s: String| s@) =~= seq![p@]);
                    return v;
                },
                None => {},
            }
        }
        let empty: Vec<String> = Vec::new();
        assert(empty@.map_values(|s: String| s@) =~= Seq::<Seq<char>>::empty());
        empty
    }

    /// Update the selection for a rubber-band drag. `was` says which items
    /// the rectangle covered before and `now` which it covers now; `toggle`
    /// is whether control or shift is held.
    pub fn select_rect(&mut self, was: &[bool], now: &[bool], toggle: bool)
        requires
            old(self).wf(),
            was@.len() == old(self).items().len(),
            now@.len() == old(self).items().len(),
        ensures
            final(self).wf(),
            final(self).selected() == rect_selection(old(self).selected(), was@, now@, toggle),
            final(self).items() == old(self).items(),
            final(self).highlighted() == old(self).highlighted(),
            final(self).cut() == old(self).cut(),
            final(self).focus() == old(self).focus(),
            final(self).range() == old(self).range(),
    {
        let n = self.items.len();
        let mut i: usize = 0;
        while i < n
            invariant
                i <= n,
                n == self.items@.len(),
                was@.len() == n,
                now@.len() == n,
                self.wf(),
                old(self).selected@.len() == n,
                self.items@ == old(self).items@,
                self.highlighted@ == old(self).highlighted@,
                self.cut@ == old(self).cut@,
                self.focus == old(self).focus,
                self.range == old(self).range,
                forall|j: int| 0 <= j < i ==> self.selected@[j] == rect_selection(old(self).selected@, was@, now@, toggle)[j],
                forall|j: int| i <= j < n ==> self.selected@[j] == old(self).selected@[j],
            decreases n - i,
        {
            let b = if toggle {
                if was[i] == now[i] {
                    self.selected[i]
                } else {
                    !self.selected[i]
                }
            } else {
                now[i]
            };
            self.selected.set(i, b);
            i = i + 1;
        }
        assert(self.selected@ =~= rect_selection(old(self).selected@, was@, now@, toggle));
    }
}

/// The first of `flags` from position `i` on that is set.
pub open spec fn first_where(flags: Seq<bool>, i: int) -> Option<usize>
    decreases flags.len() - i,
{
    if i < 0 || i >= flags.len() {
        None
    } else if flags[i] {
        Some(i as usize)
    } else {
        first_where(flags, i + 1)
    }
}

/// Whether `item` has a path that is one of `paths`.
pub open spec fn path_in(item: GridItem, paths: Seq<Seq<char>>) -> bool {
    match item.path {
        Some(p) => exists|j: int| 0 <= j < paths.len() && path_eq(paths[j], p@),
        None => false,
    }
}

proof fn lemma_path_in_views(item: GridItem, paths: Seq<String>)
    ensures
        has_path_among(item, paths) == path_in(item, paths.map_values(|s: String| s@)),
{
    let views = paths.map_values(|s: String| s@);
    if let Some(p) = item.path {
        if has_path_among(item, paths) {
            let j = choose|j: int| 0 <= j < paths.len() && path_eq(paths[j]@, p@);
            assert(views[j] == paths[j]@);
        }
        if path_in(item, views) {
            let j = choose|j: int| 0 <= j < views.len() && path_eq(views[j], p@);
            assert(views[j] == paths[j]@);
        }
    }
}

impl Selection {
    /// The paths of the selected items, in order.
    fn selected_path_list(&self) -> (r: Vec<String>)
        requires
            self.wf(),
        ensures
            r@.map_values(|s: String| s@) == selected_paths(self.items(), self.selected(), self.items().len() as int),
    {
        let n = self.items.len();
        let mut out: Vec<String> = Vec::new();
        let mut i: usize = 0;
        while i < n
            invariant
                i <= n,
                n == self.items@.len(),
                self.wf(),
                out@.map_values(|s: String| s@) == selected_paths(self.items@, self.selected@, i as int),
            decreases n - i,
        {
            if self.selected[i] {
                match &self.items[i].path {
                    Some(p) => {
                        let ghost before = out@;
                        out.push(p.clone());
                        assert(out@.map_values(|s: String| s@) =~= before.map_values(|s: String| s@).push(
                            p@,
                        ));
                    },
                    None => {},
                }
            }
            i = i + 1;
        }
        out
    }

    /// Replace the items with a fresh listing of the same place: the items
    /// whose paths were selected stay selected, the highlight stays at the
    /// same position when the listing reaches it, nothing is cut, and the
    /// focus and range are kept.
    pub fn set_items(&mut self, items: Vec<GridItem>)
        requires
            old(self).wf(),
        ensures
            final(self).wf(),
            final(self).items() == items@,
            final(self).selected() == Seq::new(
                items@.len(),
                |i: int|
                    path_in(
                        items@[i],
                        selected_paths(old(self).items(), old(self).selected(), old(self).items().len() as int),
                    ),
            ),
            final(self).highlighted() == Seq::new(
                items@.len(),
                |i: int| first_where(old(self).highlighted(), 0) == Some(i as usize),
            ),
            final(self).cut() == all(items@.len(), false),
            final(self).focus() == old(self).focus(),
            final(self).range() == old(self).range(),
    {
        let keep = self.selected_path_list();
        let ghost kept = selected_paths(self.items@, self.selected@, self.items@.len() as int);
        let old_n = self.highlighted.len();
        let mut h: Option<usize> = None;
        let mut k: usize = 0;
        while k < old_n
            invariant
                k <= old_n == self.highlighted@.len(),
                first_where(self.highlighted@, 0) == (match h {
                    Some(x) => Some(x),
                    None => first_where(self.highlighted@, k as int),
                }),
                h is None || k == old_n,
            decreases old_n - k,
        {
            if self.highlighted[k] {
                h = Some(k);
                k = old_n;
            } else {
                k = k + 1;
            }
        }
        let n = items.len();
        let mut selected: Vec<bool> = Vec::new();
        let mut highlighted: Vec<bool> = Vec::new();
        let mut cut: Vec<bool> = Vec::new();
        let mut i: usize = 0;
        while i < n
            invariant
                i <= n == items@.len(),
                keep@.map_values(|s: String| s@) == kept,
                selected@.len() == i,
                highlighted@.len() == i,
                cut@ =~= all(i as nat, false),
                forall|j: int| 0 <= j < i ==> selected@[j] == path_in(items@[j], kept),
                forall|j: int| 0 <= j < i ==> highlighted@[j] == (h == Some(j as usize)),
            decreases n - i,
        {
            let b = item_path_among(&items[i], &keep);
            proof {
                lemma_path_in_views(items@[i as int], keep@);
            }
            selected.push(b);
            let hb = match h {
                Some(x) => x == i,
                None => false,
            };
            highlighted.push(hb);
            cut.push(false);
            i = i + 1;
        }
        assert(selected@ =~= Seq::new(items@.len(), |i: int| path_in(items@[i], kept)));
        assert(highlighted@ =~= Seq::new(items@.len(), |i: int| h == Some(i as usize)));
        self.items = items;
        self.selected = selected;
        self.highlighted = highlighted;
        self.cut = cut;
    }
}

/// The first position of `x` in `order` from position `k` on.
pub open spec fn first_position(order: Seq<usize>, x: usize, k: int) -> Option<int>
    decreases order.len() - k,
{
    if k < 0 || k >= order.len() {
        None
    } else if order[k] == x {
        Some(k)
    } else {
        first_position(order, x, k + 1)
    }
}

/// The items a shift-click selects, in the order they are shown: from the
/// position of the lower end of `range` to that of the upper end, either way
/// round. An end that is not shown counts as the first position for the
/// lower end and past the last for the upper one.
pub open spec fn shift_span(order: Seq<usize>, range: (usize, usize)) -> Seq<usize> {
    let rmin = if range.0 <= range.1 {
        range.0
    } else {
        range.1
    };
    let rmax = if range.0 <= range.1 {
        range.1
    } else {
        range.0
    };
    let a = match first_position(order, rmin, 0) {
        Some(p) => p,
        None => 0,
    };
    let b = match first_position(order, rmax, 0) {
        Some(p) => p,
        None => order.len() as int,
    };
    let lo = if a <= b {
        a
    } else {
        b
    };
    let hi = if a <= b {
        b
    } else {
        a
    };
    order.subrange(lo, if hi + 1 <= order.len() {
        hi + 1
    } else {
        order.len() as int
    })
}

/// Whether a plain click on `i` leaves it alone: in a dialog for folders, a
/// file cannot be selected.
pub open spec fn click_skips(items: Seq<GridItem>, i: int, dialog_is_dir: Option<bool>) -> bool {
    dialog_is_dir matches Some(d) && items[i].is_dir != d && !items[i].is_dir
}

/// Whether a plain click keeps the other selected items: with control, or on
/// an item already selected, unless it is a folder clicked in a dialog for
/// files, which replaces the selection.
pub open spec fn click_keeps_others(
    items: Seq<GridItem>,
    selected: Seq<bool>,
    click: Option<usize>,
    ctrl: bool,
    dialog_is_dir: Option<bool>,
) -> bool {
    let folder_in_file_dialog = dialog_is_dir matches Some(d) && !d && (click matches Some(c) && c
        < items.len() && items[c as int].is_dir);
    !folder_in_file_dialog && (ctrl || (click matches Some(c) && c < items.len() && selected[c as int]))
}

/// The selection after a click on `click` (or on the background), with the
/// modifiers held; `order` is the order the items are shown in.
pub open spec fn after_click(
    items: Seq<GridItem>,
    st: SelState,
    click: Option<usize>,
    ctrl: bool,
    shift: bool,
    order: Seq<usize>,
    show_hidden: bool,
    dialog_is_dir: Option<bool>,
) -> SelState {
    if shift {
        match click {
            Some(c) => {
                let range = match st.range {
                    Some(r) => (r.0, c),
                    None => (c, c),
                };
                SelState {
                    selected: Seq::new(
                        items.len(),
                        |i: int|
                            (ctrl && st.selected[i]) || (shift_span(order, range).contains(i as usize) && (
                            show_hidden || !items[i].hidden)),
                    ),
                    focus: Some(c),
                    range: Some(range),
                }
            },
            None => st,
        }
    } else {
        let keep = click_keeps_others(items, st.selected, click, ctrl, dialog_is_dir);
        let hit = click matches Some(c) && c < items.len() && !click_skips(items, c as int, dialog_is_dir);
        SelState {
            selected: Seq::new(
                items.len(),
                |i: int|
                    if click == Some(i as usize) {
                        if click_skips(items, i, dialog_is_dir) {
                            st.selected[i]
                        } else {
                            true
                        }
                    } else if !keep {
                        false
                    } else {
                        st.selected[i]
                    },
            ),
            focus: if hit {
                click
            } else {
                st.focus
            },
            range: if hit {
                Some((click->0, click->0))
            } else {
                st.range
            },
        }
    }
}

/// The item a double click would open after a click on `click`, given the
/// one remembered before: the clicked item when the click changed the
/// selection or was made with shift, none for a click on the background,
/// and otherwise the one remembered.
pub open spec fn clicked_after(
    items: Seq<GridItem>,
    st: SelState,
    click: Option<usize>,
    ctrl: bool,
    shift: bool,
    dialog_is_dir: Option<bool>,
    clicked: Option<usize>,
) -> Option<usize> {
    if shift || click is None {
        click
    } else {
        let keep = click_keeps_others(items, st.selected, click, ctrl, dialog_is_dir);
        let c = click->0;
        let newly = c < items.len() && !click_skips(items, c as int, dialog_is_dir) && !st.selected[c as int];
        let unset = !keep && exists|i: int| 0 <= i < items.len() && i != c && st.selected[i];
        if newly || unset {
            click
        } else {
            clicked
        }
    }
}

/// The selection after a shift-click has selected the items of `seg`:
/// what was selected stays so with control, and the items of `seg` that are
/// shown are added.
pub open spec fn shift_selected(before: Seq<bool>, items: Seq<GridItem>, seg: Seq<usize>, ctrl: bool, show_hidden: bool) -> Seq<bool> {
    Seq::new(
        before.len(),
        |j: int| (ctrl && before[j]) || (seg.contains(j as usize) && (show_hidden || !items[j].hidden)),
    )
}

/// Whether a plain click on item `i` leaves it alone.
fn click_skips_at(items: &Vec<GridItem>, i: usize, dialog_is_dir: Option<bool>) -> (r: bool)
    requires
        i < items@.len(),
    ensures
        r == click_skips(items@, i as int, dialog_is_dir),
{
    match dialog_is_dir {
        Some(d) => items[i].is_dir != d && !items[i].is_dir,
        None => false,
    }
}

proof fn lemma_push_contains(s: Seq<usize>, v: usize, x: usize)
    ensures
        s.push(v).contains(x) == (s.contains(x) || x == v),
{
    if s.push(v).contains(x) {
        let w = choose|w: int| 0 <= w < s.push(v).len() && s.push(v)[w] == x;
        if w < s.len() {
            assert(s[w] == x);
        }
    }
    if s.contains(x) {
        let w = choose|w: int| 0 <= w < s.len() && s[w] == x;
        assert(s.push(v)[w] == x);
    }
    if x == v {
        assert(s.push(v)[s.len() as int] == x);
    }
}

impl Selection {
    /// Deselect everything, leaving the rest as it is.
    fn deselect_all(&mut self)
        requires
            old(self).wf(),
        ensures
            final(self).wf(),
            final(self).selected() == all(old(self).items().len(), false),
            final(self).items() == old(self).items(),
            final(self).highlighted() == old(self).highlighted(),
            final(self).cut() == old(self).cut(),
            final(self).focus() == old(self).focus(),
            final(self).range() == old(self).range(),
    {
        let n = self.items.len();
        let mut i: usize = 0;
        while i < n
            invariant
                i <= n == self.items@.len(),
                self.wf(),
                self.items@ == old(self).items@,
                self.highlighted@ == old(self).highlighted@,
                self.cut@ == old(self).cut@,
                self.focus == old(self).focus,
                self.range == old(self).range,
                forall|j: int| 0 <= j < i ==> !self.selected@[j],
            decreases n - i,
        {
            self.selected.set(i, false);
            i = i + 1;
        }
        assert(self.selected@ =~= all(n as nat, false));
    }
}

/// The first position of `x` in `order`.
fn position_in(order: &[usize], x: usize) -> (r: Option<usize>)
    ensures
        match r {
            Some(p) => first_position(order@, x, 0) == Some(p as int) && p < order@.len(),
            None => first_position(order@, x, 0) is None,
        },
{
    let mut k: usize = 0;
    while k < order.len()
        invariant
            k <= order@.len(),
            first_position(order@, x, 0) == first_position(order@, x, k as int),
        decreases order@.len() - k,
    {
        if order[k] == x {
            return Some(k);
        }
        k = k + 1;
    }
    None
}

impl Selection {
    /// A click on item `click`, or on the background when none. With shift,
    /// everything shown between the anchor of the range and the item is
    /// selected, adding to the selection with control as well. Without
    /// shift, the item is selected and becomes the focus and the range; the
    /// others are deselected unless control is held or the item was already
    /// selected. `order` is the order the items are shown in, `show_hidden`
    /// whether hidden items are shown, and `dialog_is_dir` whether the
    /// window is a dialog for folders (`Some(true)`), for files
    /// (`Some(false)`), or not a dialog. `clicked` is the item a double click
    /// would open; the one after this click is returned.
    pub fn click(
        &mut self,
        click: Option<usize>,
        ctrl: bool,
        shift: bool,
        order: &[usize],
        show_hidden: bool,
        dialog_is_dir: Option<bool>,
        clicked: Option<usize>,
    ) -> (r: Option<usize>)
        requires
            old(self).wf(),
        ensures
            final(self).wf(),
            final(self).state() == after_click(
                old(self).items(),
                old(self).state(),
                click,
                ctrl,
                shift,
                order@,
                show_hidden,
                dialog_is_dir,
            ),
            r == clicked_after(old(self).items(), old(self).state(), click, ctrl, shift, dialog_is_dir, clicked),
            final(self).items() == old(self).items(),
            final(self).highlighted() == old(self).highlighted(),
            final(self).cut() == old(self).cut(),
    {
        let n = self.items.len();
        if shift {
            let c = match click {
                Some(c) => c,
                None => return None,
            };
            let range = match self.range {
                Some(r) => (r.0, c),
                None => (c, c),
            };
            self.range = Some(range);
            self.focus = Some(c);
            let (rmin, rmax) = if range.0 <= range.1 {
                (range.0, range.1)
            } else {
                (range.1, range.0)
            };
            let a = match position_in(order, rmin) {
                Some(p) => p,
                None => 0,
            };
            let b = match position_in(order, rmax) {
                Some(p) => p,
                None => order.len(),
            };
            let (lo, hi) = if a <= b {
                (a, b)
            } else {
                (b, a)
            };
            let end = if hi < order.len() {
                hi + 1
            } else {
                order.len()
            };
            let ghost span = shift_span(order@, range);
            assert(span =~= order@.subrange(lo as int, end as int));
            let ghost before = self.selected@;
            if !ctrl {
                self.deselect_all();
            }
            assert forall|j: int| 0 <= j < n implies self.selected@[j] == (ctrl && before[j]) by {
                if !ctrl {
                    assert(self.selected@[j] == all(n as nat, false)[j]);
                }
            }
            assert(order@.subrange(lo as int, lo as int) =~= Seq::<usize>::empty());
            let mut k: usize = lo;
            assert(self.selected@ =~= shift_selected(before, self.items@, order@.subrange(lo as int, lo as int), ctrl, show_hidden));
            while k < end
                invariant
                    lo <= k <= end <= order@.len(),
                    n == self.items@.len(),
                    self.wf(),
                    self.items@ == old(self).items@,
                    self.highlighted@ == old(self).highlighted@,
                    self.cut@ == old(self).cut@,
                    before == old(self).selected@,
                    before.len() == n,
                    self.selected@ == shift_selected(
                        before,
                        self.items@,
                        order@.subrange(lo as int, k as int),
                        ctrl,
                        show_hidden,
                    ),
                    self.range == Some(range),
                    self.focus == Some(c),
                decreases end - k,
            {
                let idx = order[k];
                let ghost prev = order@.subrange(lo as int, k as int);
                assert(order@.subrange(lo as int, k + 1) =~= prev.push(idx));
                let set_it = idx < n && (show_hidden || !self.items[idx].hidden);
                if set_it {
                    self.selected.set(idx, true);
                }
                proof {
                    assert forall|j: int| 0 <= j < n implies self.selected@[j] == shift_selected(
                        before,
                        self.items@,
                        prev.push(idx),
                        ctrl,
                        show_hidden,
                    )[j] by {
                        lemma_push_contains(prev, idx, j as usize);
                    }
                    assert(self.selected@ =~= shift_selected(before, self.items@, prev.push(idx), ctrl, show_hidden));
                }
                k = k + 1;
            }
            assert(self.selected@ =~= after_click(
                old(self).items(),
                old(self).state(),
                click,
                ctrl,
                shift,
                order@,
                show_hidden,
                dialog_is_dir,
            ).selected);
            return click;
        }
        let folder_in_file_dialog = match (dialog_is_dir, click) {
            (Some(d), Some(c)) => !d && c < n && self.items[c].is_dir,
            _ => false,
        };
        let keep = !folder_in_file_dialog && (ctrl || match click {
            Some(c) => c < n && self.selected[c],
            None => false,
        });
        assert(keep == click_keeps_others(self.items@, self.selected@, click, ctrl, dialog_is_dir));
        let hit = match click {
            Some(c) => c < n && !click_skips_at(&self.items, c, dialog_is_dir),
            None => false,
        };
        let ghost before = self.selected@;
        let mut newly = false;
        let mut unset = false;
        let mut i: usize = 0;
        while i < n
            invariant
                i <= n == self.items@.len(),
                self.wf(),
                self.items@ == old(self).items@,
                self.highlighted@ == old(self).highlighted@,
                self.cut@ == old(self).cut@,
                self.range == old(self).range,
                self.focus == old(self).focus,
                before == old(self).selected@,
                keep == click_keeps_others(self.items@, before, click, ctrl, dialog_is_dir),
                forall|j: int| i <= j < n ==> self.selected@[j] == before[j],
                forall|j: int|
                    0 <= j < i ==> self.selected@[j] == (if click == Some(j as usize) {
                        if click_skips(self.items@, j, dialog_is_dir) {
                            before[j]
                        } else {
                            true
                        }
                    } else if !keep {
                        false
                    } else {
                        before[j]
                    }),
                newly == (click matches Some(c) && c < i && !click_skips(self.items@, c as int, dialog_is_dir)
                    && !before[c as int]),
                unset == (!keep && exists|j: int| 0 <= j < i && click != Some(j as usize) && before[j]),
            decreases n - i,
        {
            let is_target = match click {
                Some(c) => c == i,
                None => false,
            };
            if is_target {
                if !click_skips_at(&self.items, i, dialog_is_dir) {
                    if !self.selected[i] {
                        newly = true;
                    }
                    self.selected.set(i, true);
                }
            } else if !keep && self.selected[i] {
                unset = true;
                self.selected.set(i, false);
            }
            proof {
                if !keep && click != Some(i as usize) && before[i as int] {
                    assert(exists|j: int| 0 <= j < i + 1 && click != Some(j as usize) && before[j]);
                }
            }
            i = i + 1;
        }
        if hit {
            self.range = match click {
                Some(c) => Some((c, c)),
                None => None,
            };
            self.focus = click;
        }
        assert(self.selected@ =~= after_click(
            old(self).items(),
            old(self).state(),
            click,
            ctrl,
            shift,
            order@,
            show_hidden,
            dialog_is_dir,
        ).selected);
        proof {
            let c = click->0;
            if click is Some {
                assert(unset == (!keep && exists|j: int| 0 <= j < n && j != c && before[j])) by {
                    if !keep && exists|j: int| 0 <= j < n && j != c && before[j] {
                        let w = choose|w: int| 0 <= w < n && w != c && before[w];
                        assert(click != Some(w as usize));
                    }
                    if unset {
                        let w = choose|w: int| 0 <= w < n && click != Some(w as usize) && before[w];
                        assert(w != c);
                    }
                }
            }
        }
        match click {
            None => None,
            Some(_) => if newly || unset {
                click
            } else {
                clicked
            },
        }
    }
}

/// What opening an item does.
#[derive(Clone, Copy, Debug, PartialEq, Eq, Structural)]
pub enum OpenItem {
    /// Nothing is opened.
    Nothing,
    /// The tab moves into the directory at this position.
    Enter(usize),
    /// The file at this position is opened.
    Open(usize),
}

/// What opening the item at `click` does: a directory is entered and a file
/// opened, for an item that has a path.
pub open spec fn open_spec(items: Seq<GridItem>, click: Option<usize>) -> OpenItem {
    match click {
        Some(i) => if i < items.len() && items[i as int].path is Some {
            if items[i as int].is_dir {
                OpenItem::Enter(i)
            } else {
                OpenItem::Open(i)
            }
        } else {
            OpenItem::Nothing
        },
        None => OpenItem::Nothing,
    }
}

/// What the pointer did last: the item a double click would open, and
/// whether the current click sequence has opened something already.
#[derive(Clone, Copy, Debug, PartialEq, Eq, Structural)]
pub struct ClickTrack {
    pub clicked: Option<usize>,
    pub opened_by_this_click: bool,
}

/// What a button release over `click` opens: the item, with single-click
/// opening and no control key, unless the click sequence opened it already.
pub open spec fn release_opens(items: Seq<GridItem>, track: ClickTrack, click: Option<usize>, ctrl: bool, single_click: bool) -> OpenItem {
    if !ctrl && single_click && !track.opened_by_this_click {
        open_spec(items, click)
    } else {
        OpenItem::Nothing
    }
}

/// What a double click on `click` opens: the item, unless single-click
/// opening has done so already.
pub open spec fn double_click_opens(items: Seq<GridItem>, click: Option<usize>, single_click: bool) -> OpenItem {
    if !single_click {
        open_spec(items, click)
    } else {
        OpenItem::Nothing
    }
}

/// The pointer's record after a release: the sequence is over.
pub open spec fn after_release(track: ClickTrack) -> ClickTrack {
    ClickTrack { clicked: None, opened_by_this_click: false }
}

/// The pointer's record after a double click: the sequence has opened its
/// item.
pub open spec fn after_double_click(track: ClickTrack) -> ClickTrack {
    ClickTrack { opened_by_this_click: true, ..track }
}

/// A release, a double click and a second release on an item with a path,
/// without modifiers, open it exactly once, with or without single-click
/// opening.
pub proof fn lemma_click_sequence_opens_once(items: Seq<GridItem>, track: ClickTrack, i: usize, single_click: bool)
    requires
        !track.opened_by_this_click,
        i < items.len(),
        items[i as int].path is Some,
    ensures
        ({
            let r1 = release_opens(items, track, Some(i), false, single_click);
            let t1 = after_release(track);
            let r2 = double_click_opens(items, Some(i), single_click);
            let t2 = after_double_click(t1);
            let r3 = release_opens(items, t2, Some(i), false, single_click);
            let opened = open_spec(items, Some(i));
            &&& opened != OpenItem::Nothing
            &&& (r1 == opened && r2 == OpenItem::Nothing && r3 == OpenItem::Nothing) || (r1
                == OpenItem::Nothing && r2 == opened && r3 == OpenItem::Nothing)
        }),
{
}

impl Selection {
    fn open_at(&self, click: Option<usize>) -> (r: OpenItem)
        ensures
            r == open_spec(self.items(), click),
    {
        match click {
            Some(i) => if i < self.items.len() && self.items[i].path.is_some() {
                if self.items[i].is_dir {
                    OpenItem::Enter(i)
                } else {
                    OpenItem::Open(i)
                }
            } else {
                OpenItem::Nothing
            },
            None => OpenItem::Nothing,
        }
    }

    /// The button was released over `click`. With single-click opening and
    /// no control key, the item is opened, unless this click sequence opened
    /// it already. A control-release over a selected item that the click did
    /// not just select deselects it. The click sequence ends.
    pub fn click_release(&mut self, track: &mut ClickTrack, click: Option<usize>, ctrl: bool, single_click: bool) -> (r: OpenItem)
        requires
            old(self).wf(),
        ensures
            final(self).wf(),
            r == release_opens(old(self).items(), *old(track), click, ctrl, single_click),
            *final(track) == after_release(*old(track)),
            final(self).selected() == (if click != old(track).clicked && ctrl && (click matches Some(c) && c < old(self).items().len()) {
                old(self).selected().update(click->0 as int, false)
            } else {
                old(self).selected()
            }),
            final(self).items() == old(self).items(),
            final(self).highlighted() == old(self).highlighted(),
            final(self).cut() == old(self).cut(),
            final(self).focus() == old(self).focus(),
            final(self).range() == old(self).range(),
    {
        let already = track.opened_by_this_click;
        track.opened_by_this_click = false;
        let r = if !ctrl && single_click && !already {
            self.open_at(click)
        } else {
            OpenItem::Nothing
        };
        let before = track.clicked;
        track.clicked = None;
        if click != before && ctrl {
            match click {
                Some(c) => if c < self.items.len() {
                    self.selected.set(c, false);
                },
                None => {},
            }
        }
        r
    }

    /// A double click on `click`. Without single-click opening, the item is
    /// opened; either way the release that follows opens nothing.
    pub fn double_click(&self, track: &mut ClickTrack, click: Option<usize>, single_click: bool) -> (r: OpenItem)
        ensures
            r == double_click_opens(self.items(), click, single_click),
            *final(track) == after_double_click(*old(track)),
    {
        track.opened_by_this_click = true;
        if !single_click {
            self.open_at(click)
        } else {
            OpenItem::Nothing
        }
    }
}

/// The names of the selected items among the first `k` of `order`, in that
/// order.
pub open spec fn names_in_order(items: Seq<GridItem>, selected: Seq<bool>, order: Seq<usize>, k: int) -> Seq<Seq<char>>
    decreases k,
{
    if k <= 0 {
        seq![]
    } else {
        let before = names_in_order(items, selected, order, k - 1);
        let i = order[k - 1];
        if i < items.len() && selected[i as int] {
            before.push(items[i as int].name@)
        } else {
            before
        }
    }
}

/// The first item under the pointer that a drop can go into: a directory
/// with a path.
pub open spec fn drop_target_spec(items: Seq<GridItem>, under: Seq<bool>, k: int) -> Option<usize>
    decreases items.len() - k,
{
    if k < 0 || k >= items.len() {
        None
    } else if items[k].is_dir && items[k].path is Some && under[k] {
        Some(k as usize)
    } else {
        drop_target_spec(items, under, k + 1)
    }
}

impl Selection {
    /// The names of the selected items, in the order `order` shows them.
    pub fn selected_names(&self, order: &[usize]) -> (r: Vec<String>)
        requires
            self.wf(),
        ensures
            r@.map_values(|s: String| s@) == names_in_order(self.items(), self.selected(), order@, order@.len() as int),
    {
        let mut out: Vec<String> = Vec::new();
        let mut k: usize = 0;
        while k < order.len()
            invariant
                k <= order@.len(),
                self.wf(),
                out@.map_values(|s: String| s@) == names_in_order(self.items@, self.selected@, order@, k as int),
            decreases order@.len() - k,
        {
            let i = order[k];
            if i < self.items.len() && self.selected[i] {
                let ghost before = out@;
                out.push(self.items[i].name.clone());
                assert(out@.map_values(|s: String| s@) =~= before.map_values(|s: String| s@).push(
                    self.items@[i as int].name@,
                ));
            }
            k = k + 1;
        }
        out
    }

    /// The item a drop at the pointer goes into, given which items are under
    /// it: the first directory with a path.
    pub fn drop_target(&self, under: &[bool]) -> (r: Option<usize>)
        requires
            under@.len() == self.items().len(),
        ensures
            r == drop_target_spec(self.items(), under@, 0),
    {
        let n = self.items.len();
        let mut k: usize = 0;
        while k < n
            invariant
                k <= n == self.items@.len() == under@.len(),
                drop_target_spec(self.items@, under@, 0) == drop_target_spec(self.items@, under@, k as int),
            decreases n - k,
        {
            if self.items[k].is_dir && self.items[k].path.is_some() && under[k] {
                return Some(k);
            }
            k = k + 1;
        }
        None
    }
}

/// The item at step `t` of walking `order`, from its end when `backward`.
pub open spec fn directed_at(order: Seq<usize>, backward: bool, t: int) -> usize {
    if backward {
        order[order.len() - 1 - t]
    } else {
        order[t]
    }
}

/// Whether item `i` can be shown in the gallery: it is an item, it can be,
/// and it was laid out.
pub open spec fn gallery_eligible(items: Seq<GridItem>, can_gallery: Seq<bool>, i: usize) -> bool {
    i < items.len() && i < can_gallery.len() && can_gallery[i as int] && items[i as int].pos is Some
}

/// The first item from step `t` on of walking `order` (from its end when
/// `backward`) that can be shown in the gallery and comes after the focus:
/// after the focus has been passed (`passed`), or anywhere when nothing has
/// the focus; the focused item itself is never the answer.
pub open spec fn gallery_scan(
    items: Seq<GridItem>,
    can_gallery: Seq<bool>,
    order: Seq<usize>,
    focus: Option<usize>,
    backward: bool,
    t: int,
    passed: bool,
) -> Option<usize>
    decreases order.len() - t,
{
    if t < 0 || t >= order.len() {
        None
    } else {
        let i = directed_at(order, backward, t);
        if focus == Some(i) {
            gallery_scan(items, can_gallery, order, focus, backward, t + 1, true)
        } else if (passed || focus is None) && gallery_eligible(items, can_gallery, i) {
            Some(i)
        } else {
            gallery_scan(items, can_gallery, order, focus, backward, t + 1, passed)
        }
    }
}

/// The item the gallery moves to from the focus: the next one in the sort
/// `order` that it can show, or the previous one when `backward`.
pub open spec fn gallery_target(
    items: Seq<GridItem>,
    can_gallery: Seq<bool>,
    order: Seq<usize>,
    focus: Option<usize>,
    backward: bool,
) -> Option<usize> {
    gallery_scan(items, can_gallery, order, focus, backward, 0, false)
}

/// The gallery only ever moves to an item it can show, and never stays on
/// the focused one.
pub proof fn lemma_the_gallery_moves_to_a_showable_item(
    items: Seq<GridItem>,
    can_gallery: Seq<bool>,
    order: Seq<usize>,
    focus: Option<usize>,
    backward: bool,
    t: int,
    passed: bool,
)
    ensures
        gallery_scan(items, can_gallery, order, focus, backward, t, passed) matches Some(i) ==> gallery_eligible(
            items,
            can_gallery,
            i,
        ) && focus != Some(i),
    decreases order.len() - t,
{
    if 0 <= t < order.len() {
        lemma_the_gallery_moves_to_a_showable_item(items, can_gallery, order, focus, backward, t + 1, true);
        lemma_the_gallery_moves_to_a_showable_item(items, can_gallery, order, focus, backward, t + 1, passed);
    }
}

impl Selection {
    /// Moves the gallery to the next item in the sort `order` that it can
    /// show (`can_gallery`, and laid out), or the previous one when
    /// `backward`, selecting it as a click at its place would, extending the
    /// selection with `shift`. Returns whether there was one; otherwise
    /// nothing changes.
    pub fn gallery_step(&mut self, order: &[usize], can_gallery: &[bool], backward: bool, shift: bool) -> (moved: bool)
        requires
            old(self).wf(),
        ensures
            final(self).wf(),
            final(self).items() == old(self).items(),
            final(self).highlighted() == old(self).highlighted(),
            final(self).cut() == old(self).cut(),
            moved == (gallery_target(old(self).items(), can_gallery@, order@, old(self).focus(), backward) is Some),
            match gallery_target(old(self).items(), can_gallery@, order@, old(self).focus(), backward) {
                Some(i) => {
                    let pos = old(self).items()[i as int].pos.unwrap();
                    final(self).state() == after_position(old(self).items(), old(self).state(), pos.0, pos.1, shift).0
                },
                None => final(self).state() == old(self).state(),
            },
    {
        let n = order.len();
        let mut passed = false;
        let mut t: usize = 0;
        let mut target: Option<usize> = None;
        while t < n
            invariant_except_break
                t <= n == order@.len(),
                target is None,
                gallery_target(self.items@, can_gallery@, order@, self.focus, backward) == gallery_scan(
                    self.items@,
                    can_gallery@,
                    order@,
                    self.focus,
                    backward,
                    t as int,
                    passed,
                ),
            ensures
                target == gallery_target(self.items@, can_gallery@, order@, self.focus, backward),
            decreases n - t,
        {
            let i = if backward {
                order[n - 1 - t]
            } else {
                order[t]
            };
            if self.focus == Some(i) {
                passed = true;
            } else if (passed || self.focus.is_none()) && i < self.items.len() && i < can_gallery.len()
                && can_gallery[i] && self.items[i].pos.is_some() {
                target = Some(i);
                break;
            }
            t = t + 1;
        }
        proof {
            lemma_the_gallery_moves_to_a_showable_item(self.items@, can_gallery@, order@, self.focus, backward, 0, false);
        }
        match target {
            Some(i) => {
                let pos = match self.items[i].pos {
                    Some(p) => p,
                    None => return false,
                };
                self.select_position(pos.0, pos.1, shift);
                true
            },
            None => false,
        }
    }
}

/// What opening the selection does with an item.
#[derive(Clone, Copy, Debug, PartialEq, Eq, Structural)]
pub enum OpenStep {
    /// Nothing: it is not selected, has no location (its properties are
    /// what would open), or is a folder among several in a dialog.
    Skip,
    /// Open the file.
    Open,
    /// Open the folder in a new tab.
    OpenInTab,
    /// Go to the folder.
    Cd,
}

/// What opening the selection does with `item`: a folder is gone into when
/// it is the only item selected, and otherwise opened in a new tab by the
/// app (a dialog leaves it); anything else is opened.
pub open spec fn open_step(item: GridItem, selected: bool, located: bool, app: bool, only_one: bool) -> OpenStep {
    if !selected || !located {
        OpenStep::Skip
    } else if item.is_dir {
        if only_one {
            OpenStep::Cd
        } else if app {
            OpenStep::OpenInTab
        } else {
            OpenStep::Skip
        }
    } else {
        OpenStep::Open
    }
}

/// How many of `flags` are set.
pub open spec fn count_set(flags: Seq<bool>) -> nat
    decreases flags.len(),
{
    if flags.len() == 0 {
        0
    } else {
        count_set(flags.drop_last()) + if flags.last() {
            1nat
        } else {
            0nat
        }
    }
}

/// The items among the first `n` that opening the selection does `step`
/// with and that have a path, in order.
pub open spec fn open_indices(
    items: Seq<GridItem>,
    selected: Seq<bool>,
    located: Seq<bool>,
    app: bool,
    only_one: bool,
    step: OpenStep,
    n: int,
) -> Seq<usize>
    decreases n,
{
    if n <= 0 {
        seq![]
    } else {
        let before = open_indices(items, selected, located, app, only_one, step, n - 1);
        let i = n - 1;
        if open_step(items[i], selected[i], located[i], app, only_one) == step && items[i].path is Some {
            before.push(i as usize)
        } else {
            before
        }
    }
}

/// The last item among the first `n` that opening the selection goes into.
pub open spec fn open_cd(items: Seq<GridItem>, selected: Seq<bool>, located: Seq<bool>, app: bool, only_one: bool, n: int) -> Option<usize>
    decreases n,
{
    if n <= 0 {
        None
    } else if open_step(items[n - 1], selected[n - 1], located[n - 1], app, only_one) == OpenStep::Cd {
        Some((n - 1) as usize)
    } else {
        open_cd(items, selected, located, app, only_one, n - 1)
    }
}

/// What opening the selection asks for, by item: files to open, folders to
/// open in new tabs, and the folder to go into.
pub struct OpenPlan {
    pub files: Vec<usize>,
    pub new_tabs: Vec<usize>,
    pub cd: Option<usize>,
}

/// What a middle click opens.
#[derive(Clone, Copy, Debug, PartialEq, Eq, Structural)]
pub enum MiddleOpen {
    /// The clicked folder, in a new tab.
    NewTab(usize),
    /// The clicked file.
    File(usize),
    /// Nothing: no item there, or it has no path.
    Nothing,
}

/// What a middle click on item `i` of `items` opens.
pub open spec fn middle_open(items: Seq<GridItem>, i: usize) -> MiddleOpen {
    if i < items.len() && items[i as int].path is Some {
        if items[i as int].is_dir {
            MiddleOpen::NewTab(i)
        } else {
            MiddleOpen::File(i)
        }
    } else {
        MiddleOpen::Nothing
    }
}

impl Selection {
    /// Opening the selection (Enter, or a double click's open): every
    /// selected file opens; a selected folder is gone into when it is the
    /// only item selected, and otherwise opens in a new tab in the app, or
    /// is left alone in a dialog. `located` says which items have a
    /// location; one without is left alone. Items without a path give
    /// nothing to open.
    pub fn open_selected(&self, located: &[bool], app: bool) -> (r: OpenPlan)
        requires
            self.wf(),
            located@.len() == self.items().len(),
        ensures
            ({
                let only_one = count_set(self.selected()) == 1;
                let n = self.items().len() as int;
                &&& r.files@ == open_indices(self.items(), self.selected(), located@, app, only_one, OpenStep::Open, n)
                &&& r.new_tabs@ == open_indices(self.items(), self.selected(), located@, app, only_one, OpenStep::OpenInTab, n)
                &&& r.cd == open_cd(self.items(), self.selected(), located@, app, only_one, n)
            }),
    {
        let n = self.items.len();
        let mut count: usize = 0;
        let mut i: usize = 0;
        while i < n
            invariant
                i <= n == self.items@.len() == self.selected@.len(),
                count == count_set(self.selected@.take(i as int)),
                count <= i,
            decreases n - i,
        {
            assert(self.selected@.take(i + 1).drop_last() =~= self.selected@.take(i as int));
            if self.selected[i] {
                count = count + 1;
            }
            i = i + 1;
        }
        assert(self.selected@.take(n as int) =~= self.selected@);
        let only_one = count == 1;
        let mut files: Vec<usize> = Vec::new();
        let mut new_tabs: Vec<usize> = Vec::new();
        let mut cd: Option<usize> = None;
        let mut i: usize = 0;
        while i < n
            invariant
                i <= n == self.items@.len() == self.selected@.len() == located@.len(),
                only_one == (count_set(self.selected@) == 1),
                files@ == open_indices(self.items@, self.selected@, located@, app, only_one, OpenStep::Open, i as int),
                new_tabs@ == open_indices(self.items@, self.selected@, located@, app, only_one, OpenStep::OpenInTab, i as int),
                cd == open_cd(self.items@, self.selected@, located@, app, only_one, i as int),
            decreases n - i,
        {
            if self.selected[i] && located[i] {
                let has_path = self.items[i].path.is_some();
                if self.items[i].is_dir {
                    if only_one {
                        cd = Some(i);
                    } else if app && has_path {
                        new_tabs.push(i);
                    }
                } else if has_path {
                    files.push(i);
                }
            }
            i = i + 1;
        }
        OpenPlan { files, new_tabs, cd }
    }

    /// A right click on item `clicked`, or on the background: unless it hit
    /// a selected item, the selection becomes that item alone, or nothing.
    /// The focus and the range stay.
    pub fn right_click_select(&mut self, clicked: Option<usize>)
        requires
            old(self).wf(),
        ensures
            final(self).wf(),
            final(self).items() == old(self).items(),
            final(self).highlighted() == old(self).highlighted(),
            final(self).cut() == old(self).cut(),
            final(self).focus() == old(self).focus(),
            final(self).range() == old(self).range(),
            final(self).selected() == (if clicked matches Some(c) && c < old(self).items().len() && old(self).selected()[c as int] {
                old(self).selected()
            } else {
                only(old(self).items().len(), clicked)
            }),
    {
        if let Some(c) = clicked {
            if c < self.selected.len() && self.selected[c] {
                return;
            }
        }
        self.select_only(clicked);
    }

    /// The right click reached the background as well. Unless the right
    /// click before it (`last_right_click`) was on an item, nothing stays
    /// selected; the focus and the range stay.
    pub fn right_click_background(&mut self, last_right_click: Option<usize>)
        requires
            old(self).wf(),
        ensures
            final(self).wf(),
            final(self).items() == old(self).items(),
            final(self).highlighted() == old(self).highlighted(),
            final(self).cut() == old(self).cut(),
            final(self).focus() == old(self).focus(),
            final(self).range() == old(self).range(),
            final(self).selected() == (if last_right_click is Some {
                old(self).selected()
            } else {
                all(old(self).items().len(), false)
            }),
    {
        if last_right_click.is_none() {
            self.select_only(None);
            assert(self.selected@ =~= all(self.items@.len(), false));
        }
    }

    fn select_only(&mut self, target: Option<usize>)
        requires
            old(self).wf(),
        ensures
            final(self).wf(),
            final(self).items() == old(self).items(),
            final(self).highlighted() == old(self).highlighted(),
            final(self).cut() == old(self).cut(),
            final(self).focus() == old(self).focus(),
            final(self).range() == old(self).range(),
            final(self).selected() == only(old(self).items().len(), target),
    {
        let n = self.selected.len();
        let mut i: usize = 0;
        while i < n
            invariant
                i <= n == self.selected@.len() == old(self).items@.len(),
                self.items@ == old(self).items@,
                self.highlighted@ == old(self).highlighted@,
                self.cut@ == old(self).cut@,
                self.focus == old(self).focus,
                self.range == old(self).range,
                forall|j: int| 0 <= j < i ==> self.selected@[j] == (target == Some(j as usize)),
            decreases n - i,
        {
            let hit = match target {
                Some(t) => t == i,
                None => false,
            };
            self.selected.set(i, hit);
            i = i + 1;
        }
        assert(self.selected@ =~= only(n as nat, target));
    }

    /// A middle click on item `i`, without a modifier: the selection becomes
    /// that item alone and the range starts and ends there; a folder then
    /// opens in a new tab and a file opens, when it has a path.
    pub fn middle_click(&mut self, i: usize) -> (r: MiddleOpen)
        requires
            old(self).wf(),
        ensures
            final(self).wf(),
            final(self).items() == old(self).items(),
            final(self).highlighted() == old(self).highlighted(),
            final(self).cut() == old(self).cut(),
            final(self).focus() == old(self).focus(),
            final(self).range() == Some((i, i)),
            final(self).selected() == only(old(self).items().len(), Some(i)),
            r == middle_open(old(self).items(), i),
    {
        self.select_only(Some(i));
        self.range = Some((i, i));
        if i < self.items.len() && self.items[i].path.is_some() {
            if self.items[i].is_dir {
                MiddleOpen::NewTab(i)
            } else {
                MiddleOpen::File(i)
            }
        } else {
            MiddleOpen::Nothing
        }
    }
}

/// Opening the selection goes into at most one folder, and only when that
/// folder is all that is selected; then nothing else opens in a new tab.
pub proof fn lemma_opening_goes_into_a_folder_only_when_it_is_all_that_is_selected(
    items: Seq<GridItem>,
    selected: Seq<bool>,
    located: Seq<bool>,
    app: bool,
    only_one: bool,
    n: int,
)
    requires
        n <= usize::MAX,
    ensures
        open_cd(items, selected, located, app, only_one, n) matches Some(c) ==> only_one && (c as int) < n
            && selected[c as int] && items[c as int].is_dir,
        only_one ==> open_indices(items, selected, located, app, only_one, OpenStep::OpenInTab, n).len() == 0,
    decreases n,
{
    if n > 0 {
        lemma_opening_goes_into_a_folder_only_when_it_is_all_that_is_selected(items, selected, located, app, only_one, n - 1);
    }
}

} // verus!
