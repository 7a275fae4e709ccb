//! A side panel's slide in from its window edge and back out: the context
//! drawer on the right, the nav bar on the left.
//!
//! The shell observes whether a panel is shown after every update rather than
//! hooking a setter, because several sites write that state directly. Each
//! observation is handed to [`PanelSlide::sync`], which decides what the
//! animation engine is to do: nothing, stop, turn the running slide round, or
//! start a fresh slide from rest. Offsets are stated in units of the slide's
//! extent, the width the panel takes, so the decisions stay apart from the
//! pixels the engine moves; the extent itself is carried through untouched.
//!
//! Two paths. On [`SlidePath::Columns`] (the drawer only) the layout stays
//! wide while the drawer floats in over it and the list's fixed columns slide
//! left; the one relayout happens when the slide comes to rest. On
//! [`SlidePath::Snap`] the layout goes straight to where it is going and only
//! the panel moves.

use vstd::prelude::*;

verus! {

/// The window edge a panel slides in from.
#[derive(Clone, Copy, Debug, PartialEq, Eq, Structural)]
pub enum Edge {
    Left,
    Right,
}

/// Which way is off-screen from `edge`, as a sign.
pub open spec fn outward_sign(edge: Edge) -> int {
    match edge {
        Edge::Left => -1,
        Edge::Right => 1,
    }
}

impl Edge {
    /// Which way is off-screen: a hidden panel rests at this many extents
    /// from its place.
    pub fn outward(self) -> (r: i8)
        ensures
            r == outward_sign(self),
    {
        match self {
            Edge::Left => -1,
            Edge::Right => 1,
        }
    }
}

/// How the file view follows a slide.
#[derive(Clone, Copy, Debug, PartialEq, Eq, Structural)]
pub enum SlidePath {
    /// The list's fixed columns slide over a wide layout.
    Columns,
    /// The layout snaps to its destination; only the panel moves.
    Snap,
}

/// A track's run, in extents: its offset goes from `from` times the extent
/// to `to` times the extent.
#[derive(Clone, Copy, Debug, PartialEq, Eq, Structural)]
pub struct Run {
    pub from: i8,
    pub to: i8,
}

/// What an observation asks of the animation engine.
#[derive(Clone, Copy, Debug, PartialEq)]
pub enum SlideAction<E> {
    /// Leave the tracks as they are.
    Nothing,
    /// Bring both tracks to rest where the panel sits, at once.
    Stop,
    /// Turn the running slide round on its own tracks, keeping its
    /// velocity: the panel heads for `panel_to`, the columns (the drawer
    /// only) for `columns_to`, at the extent the slide started with.
    TurnRound { panel_to: i8, columns_to: Option<i8>, extent: E },
    /// Start a fresh slide from rest on fresh tracks, from the edge, at
    /// `extent`.
    Start { path: SlidePath, panel: Run, columns: Option<Run>, extent: E },
}

/// A panel's slide, as a value.
pub struct SlideModel<E> {
    /// The edge the panel slides in from.
    pub edge: Edge,
    /// Whether the panel was shown, as last observed; none before the first
    /// observation.
    pub shown: Option<bool>,
    /// Whether the layout was condensed, as last observed.
    pub condensed: bool,
    /// The extent the running (or last) slide started with.
    pub extent: E,
    /// The path the running (or last) slide took.
    pub path: SlidePath,
}

/// Where the panel rests when `shown`, in extents: in its place, or
/// off-screen past its edge.
pub open spec fn panel_rest(edge: Edge, shown: bool) -> int {
    if shown {
        0
    } else {
        outward_sign(edge)
    }
}

/// Where the list's columns rest when the drawer is `shown`, in extents:
/// moved left by the drawer's width, or in their place.
pub open spec fn columns_rest(shown: bool) -> int {
    if shown {
        -1
    } else {
        0
    }
}

/// Whether observing `shown` with the panel `moving` starts a slide from
/// rest: the panel was seen before, showing the other way, and is still.
pub open spec fn starts_from_rest<E>(s: SlideModel<E>, shown: bool, moving: bool) -> bool {
    s.shown == Some(!shown) && !moving
}

/// The path a slide from rest takes: over the columns only for the drawer,
/// when the columns fit, and when the layout is not condensed before or
/// after.
pub open spec fn path_for(edge: Edge, columns_fit: bool, condensed: bool, was_condensed: bool) -> SlidePath {
    if edge == Edge::Right && columns_fit && !condensed && !was_condensed {
        SlidePath::Columns
    } else {
        SlidePath::Snap
    }
}

/// Whether the nav crossed the condensing breakpoint: it is shown by one
/// toggle when wide and another when condensed, so crossing can show or hide
/// it without anyone asking, and changes its width besides.
pub open spec fn crosses_breakpoint<E>(s: SlideModel<E>, condensed: bool) -> bool {
    s.edge == Edge::Left && s.condensed != condensed
}

/// What observing `shown` and `condensed` asks of the engine, with the panel
/// `moving` or not; `extent` and `columns_fit` count only for a slide from
/// rest.
pub open spec fn slide_action<E>(
    s: SlideModel<E>,
    shown: bool,
    condensed: bool,
    moving: bool,
    extent: E,
    columns_fit: bool,
) -> SlideAction<E> {
    match s.shown {
        None => SlideAction::Nothing,
        Some(was) => if crosses_breakpoint(s, condensed) {
            SlideAction::Stop
        } else if was == shown {
            SlideAction::Nothing
        } else if moving {
            SlideAction::TurnRound {
                panel_to: panel_rest(s.edge, shown) as i8,
                columns_to: if s.edge == Edge::Right {
                    Some(columns_rest(shown) as i8)
                } else {
                    None
                },
                extent: s.extent,
            }
        } else {
            SlideAction::Start {
                path: path_for(s.edge, columns_fit, condensed, s.condensed),
                panel: Run { from: panel_rest(s.edge, !shown) as i8, to: panel_rest(s.edge, shown) as i8 },
                columns: if s.edge == Edge::Right {
                    Some(Run { from: columns_rest(!shown) as i8, to: columns_rest(shown) as i8 })
                } else {
                    None
                },
                extent,
            }
        },
    }
}

/// The slide after the observation: both observations recorded, and a slide
/// from rest recording its path and extent.
pub open spec fn slide_next<E>(
    s: SlideModel<E>,
    shown: bool,
    condensed: bool,
    moving: bool,
    extent: E,
    columns_fit: bool,
) -> SlideModel<E> {
    let seen = SlideModel { shown: Some(shown), condensed, ..s };
    match slide_action(s, shown, condensed, moving, extent, columns_fit) {
        SlideAction::Start { path, extent, .. } => SlideModel { path, extent, ..seen },
        _ => seen,
    }
}

/// A panel's slide state: what was last observed, and the path and extent
/// of the running (or last) slide. The tracks themselves belong to the
/// animation engine, which reports whether the panel is moving.
pub struct PanelSlide<E> {
    edge: Edge,
    shown: Option<bool>,
    condensed: bool,
    extent: E,
    path: SlidePath,
}

impl<E: Copy> PanelSlide<E> {
    /// The state as a value.
    pub closed spec fn model(&self) -> SlideModel<E> {
        SlideModel {
            edge: self.edge,
            shown: self.shown,
            condensed: self.condensed,
            extent: self.extent,
            path: self.path,
        }
    }

    fn new(edge: Edge, extent: E) -> (r: Self)
        ensures
            r.model() == (SlideModel {
                edge,
                shown: None,
                condensed: false,
                extent,
                path: SlidePath::Snap,
            }),
    {
        PanelSlide { edge, shown: None, condensed: false, extent, path: SlidePath::Snap }
    }

    /// The context drawer's slide, from the right edge, with nothing
    /// observed yet; `extent` is the extent of the slide that never ran.
    pub fn drawer(extent: E) -> (r: Self)
        ensures
            r.model() == (SlideModel {
                edge: Edge::Right,
                shown: None,
                condensed: false,
                extent,
                path: SlidePath::Snap,
            }),
    {
        Self::new(Edge::Right, extent)
    }

    /// The nav bar's slide, from the left edge, with nothing observed yet.
    pub fn nav(extent: E) -> (r: Self)
        ensures
            r.model() == (SlideModel {
                edge: Edge::Left,
                shown: None,
                condensed: false,
                extent,
                path: SlidePath::Snap,
            }),
    {
        Self::new(Edge::Left, extent)
    }

    /// The edge the panel slides in from.
    pub fn edge(&self) -> (r: Edge)
        ensures
            r == self.model().edge,
    {
        self.edge
    }

    /// The path the running (or last) slide took.
    pub fn path(&self) -> (r: SlidePath)
        ensures
            r == self.model().path,
    {
        self.path
    }

    /// Whether observing `shown`, with the panel `moving` or not, would start
    /// a slide from rest, which is when [`sync`](Self::sync) reads a real
    /// extent and whether the columns fit.
    pub fn starts_slide(&self, shown: bool, moving: bool) -> (r: bool)
        ensures
            r == starts_from_rest(self.model(), shown, moving),
    {
        match self.shown {
            Some(was) => was != shown && !moving,
            None => false,
        }
    }

    /// Observes whether the panel is shown, and whether the layout is
    /// condensed, after an update; `moving` is whether the engine has the
    /// panel in motion.
    ///
    /// The first look is the starting state, not a change. On the nav's
    /// edge, crossing the condensing breakpoint stops whatever runs: that is
    /// the layout's doing, not a toggle. A change of `shown` mid-slide turns
    /// the slide round, on its path and at its extent; a change at rest
    /// starts a slide from the edge at `extent`, over the columns when the
    /// drawer's columns fit and the layout is wide before and after.
    pub fn sync(&mut self, shown: bool, condensed: bool, moving: bool, extent: E, columns_fit: bool) -> (r: SlideAction<E>)
        ensures
            r == slide_action(old(self).model(), shown, condensed, moving, extent, columns_fit),
            final(self).model() == slide_next(old(self).model(), shown, condensed, moving, extent, columns_fit),
    {
        let from_rest = self.starts_slide(shown, moving);
        let was_condensed = self.condensed;
        self.condensed = condensed;
        let was = match self.shown {
            Some(was) => was,
            None => {
                self.shown = Some(shown);
                return SlideAction::Nothing;
            },
        };
        self.shown = Some(shown);
        if self.edge == Edge::Left && was_condensed != condensed {
            return SlideAction::Stop;
        }
        if was == shown {
            return SlideAction::Nothing;
        }
        let right = self.edge == Edge::Right;
        let outward = self.edge.outward();
        if !from_rest {
            let panel_to: i8 = if shown { 0 } else { outward };
            let columns_to: Option<i8> = if right {
                Some(if shown { -1i8 } else { 0i8 })
            } else {
                None
            };
            return SlideAction::TurnRound { panel_to, columns_to, extent: self.extent };
        }
        let path = if right && columns_fit && !condensed && !was_condensed {
            SlidePath::Columns
        } else {
            SlidePath::Snap
        };
        self.path = path;
        self.extent = extent;
        let panel = if shown {
            Run { from: outward, to: 0 }
        } else {
            Run { from: 0, to: outward }
        };
        let columns = if right {
            Some(if shown { Run { from: 0, to: -1 } } else { Run { from: -1, to: 0 } })
        } else {
            None
        };
        SlideAction::Start { path, panel, columns, extent }
    }

    /// The extent of the column slide, while one runs: while the panel is
    /// `moving` on the column path.
    pub fn column_slide(&self, moving: bool) -> (r: Option<E>)
        ensures
            r == (if moving && self.model().path == SlidePath::Columns {
                Some(self.model().extent)
            } else {
                None::<E>
            }),
    {
        if moving && self.path == SlidePath::Columns {
            Some(self.extent)
        } else {
            None
        }
    }
}

/// The first observation is the starting state, not a change: it asks
/// nothing of the engine and is recorded.
pub proof fn lemma_first_look_latches<E>(
    s: SlideModel<E>,
    shown: bool,
    condensed: bool,
    moving: bool,
    extent: E,
    columns_fit: bool,
)
    requires
        s.shown is None,
    ensures
        slide_action(s, shown, condensed, moving, extent, columns_fit) == SlideAction::<E>::Nothing,
        slide_next(s, shown, condensed, moving, extent, columns_fit) == (SlideModel { shown: Some(shown), condensed, ..s }),
        !starts_from_rest(s, shown, moving),
{
}

/// Observing what was observed before asks nothing of the engine and keeps
/// the slide's path and extent, unless the nav crossed the breakpoint.
pub proof fn lemma_unchanged_observation_does_nothing<E>(
    s: SlideModel<E>,
    shown: bool,
    condensed: bool,
    moving: bool,
    extent: E,
    columns_fit: bool,
)
    requires
        s.shown == Some(shown),
        !crosses_breakpoint(s, condensed),
    ensures
        slide_action(s, shown, condensed, moving, extent, columns_fit) == SlideAction::<E>::Nothing,
        slide_next(s, shown, condensed, moving, extent, columns_fit) == (SlideModel { condensed, ..s }),
{
}

/// A change of heart mid-slide is no new slide: the slide turns round at the
/// extent it started with, toward where the panel rests, and keeps its path;
/// the extent and fit observed now are ignored.
pub proof fn lemma_turning_round_keeps_the_path_and_extent<E>(
    s: SlideModel<E>,
    shown: bool,
    condensed: bool,
    extent: E,
    columns_fit: bool,
)
    requires
        s.shown == Some(!shown),
        !crosses_breakpoint(s, condensed),
    ensures
        !starts_from_rest(s, shown, true),
        slide_action(s, shown, condensed, true, extent, columns_fit) matches SlideAction::TurnRound { panel_to, extent: e, .. }
            && panel_to == panel_rest(s.edge, shown) && e == s.extent,
        slide_next(s, shown, condensed, true, extent, columns_fit).path == s.path,
        slide_next(s, shown, condensed, true, extent, columns_fit).extent == s.extent,
{
}

/// Turning round twice mid-slide stays on the slide that started from rest:
/// the panel heads back where that slide was taking it, at its extent and on
/// its path.
pub proof fn lemma_turning_round_twice_stays_on_one_slide<E>(
    s: SlideModel<E>,
    shown: bool,
    condensed: bool,
    extents: (E, E, E),
    fits: (bool, bool, bool),
)
    requires
        s.shown == Some(!shown),
        !crosses_breakpoint(s, condensed),
    ensures
        ({
            let a = slide_action(s, shown, condensed, false, extents.0, fits.0);
            let s1 = slide_next(s, shown, condensed, false, extents.0, fits.0);
            let s2 = slide_next(s1, !shown, condensed, true, extents.1, fits.1);
            let b = slide_action(s2, shown, condensed, true, extents.2, fits.2);
            let s3 = slide_next(s2, shown, condensed, true, extents.2, fits.2);
            &&& a matches SlideAction::Start { panel, columns, extent, .. }
            &&& b matches SlideAction::TurnRound { panel_to, columns_to, extent: e }
            &&& panel_to == panel.to
            &&& columns_to == (match columns {
                Some(run) => Some(run.to),
                None => None,
            })
            &&& e == extent
            &&& s3.path == s1.path
        }),
{
}

/// A slide from rest starts where the panel rests, showing or hidden, and
/// ends where it rests the other way: it slides in from the edge it slides
/// out to.
pub proof fn lemma_a_slide_from_rest_runs_between_resting_places<E>(
    s: SlideModel<E>,
    shown: bool,
    condensed: bool,
    extent: E,
    columns_fit: bool,
)
    requires
        s.shown == Some(!shown),
        !crosses_breakpoint(s, condensed),
    ensures
        starts_from_rest(s, shown, false),
        slide_action(s, shown, condensed, false, extent, columns_fit) matches SlideAction::Start { panel, extent: e, .. }
            && panel.from == panel_rest(s.edge, !shown) && panel.to == panel_rest(s.edge, shown) && e == extent,
        slide_next(s, shown, condensed, false, extent, columns_fit).extent == extent,
{
}

/// Crossing the condensing breakpoint stops the nav where it is, whether it
/// was shown or hidden by the crossing, and whether or not it was moving.
pub proof fn lemma_crossing_the_breakpoint_stops_the_nav<E>(
    s: SlideModel<E>,
    shown: bool,
    moving: bool,
    extent: E,
    columns_fit: bool,
)
    requires
        s.edge == Edge::Left,
        s.shown is Some,
    ensures
        slide_action(s, shown, !s.condensed, moving, extent, columns_fit) == SlideAction::<E>::Stop,
        slide_next(s, shown, !s.condensed, moving, extent, columns_fit).path == s.path,
        slide_next(s, shown, !s.condensed, moving, extent, columns_fit).extent == s.extent,
{
}

/// The nav never takes the column path: it starts on the snap path and every
/// observation keeps it there.
pub proof fn lemma_the_nav_never_slides_the_columns<E>(
    s: SlideModel<E>,
    shown: bool,
    condensed: bool,
    moving: bool,
    extent: E,
    columns_fit: bool,
)
    requires
        s.edge == Edge::Left,
        s.path == SlidePath::Snap,
    ensures
        slide_next(s, shown, condensed, moving, extent, columns_fit).path == SlidePath::Snap,
        slide_next(s, shown, condensed, moving, extent, columns_fit).edge == Edge::Left,
{
}

} // verus!
