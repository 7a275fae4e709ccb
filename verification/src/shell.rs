//! The window shell's nav bar and context drawer: whether the window is too
//! narrow for both beside the content, which of them is open, and how opening
//! one closes the other when they would not fit.
//!
//! Whether the window is narrow is measured by the caller, in pixels scaled by
//! the window's factor, and handed in as two answers: whether the nav bar and
//! the content fit, and whether they fit with an inline context drawer too.

use vstd::prelude::*;

verus! {

/// The nav bar and context drawer state, as a value.
pub struct NavView {
    /// Whether the nav bar is shown.
    pub active: bool,
    /// Whether the nav bar is open in the wide layout.
    pub toggled: bool,
    /// Whether the nav bar is open in the condensed layout.
    pub toggled_condensed: bool,
    /// Whether the context drawer is shown.
    pub show_context: bool,
    /// Whether the context drawer floats over the content rather than
    /// taking its own column.
    pub context_is_overlay: bool,
    /// Whether the layout is condensed.
    pub condensed: bool,
    /// Whether the nav bar and the content do not fit side by side.
    pub narrow: bool,
    /// Whether the nav bar, the content and an inline drawer do not fit.
    pub narrow_with_drawer: bool,
}

/// Whether the layout is condensed: the nav bar and the content do not fit,
/// counting an inline drawer when one is shown.
pub open spec fn condensed_for(v: NavView) -> bool {
    if v.show_context && !v.context_is_overlay {
        v.narrow_with_drawer
    } else {
        v.narrow
    }
}

/// Whether the nav bar is shown: in the condensed layout when open there,
/// otherwise when open in the wide layout.
pub open spec fn active_for(v: NavView) -> bool {
    if v.condensed {
        v.toggled_condensed
    } else {
        v.toggled
    }
}

/// The state with the layout measured again and the nav bar's visibility
/// brought in line.
pub open spec fn remeasured(v: NavView) -> NavView {
    let c = NavView { condensed: condensed_for(v), ..v };
    NavView { active: active_for(c), ..c }
}

/// Whether the nav bar and an inline drawer are both open in the condensed
/// layout, where they cannot both fit.
pub open spec fn conflict(v: NavView) -> bool {
    v.condensed && v.toggled_condensed && v.show_context && !v.context_is_overlay
}

/// The state after showing or hiding the drawer: opening it closes a
/// condensed nav bar it would collide with.
pub open spec fn after_show_context(v: NavView, show: bool) -> NavView {
    let a = remeasured(NavView { show_context: show, ..v });
    if conflict(a) {
        remeasured(NavView { toggled_condensed: false, ..a })
    } else {
        a
    }
}

/// The state after opening or closing the nav bar in the condensed layout:
/// opening it closes an inline drawer it would collide with, and when that
/// makes the layout wide again, the wide nav bar follows.
pub open spec fn after_toggled_condensed(v: NavView, toggled: bool) -> NavView {
    let a = NavView { toggled_condensed: toggled, ..v };
    let b = NavView { active: active_for(a), ..a };
    if conflict(b) {
        let c = remeasured(NavView { show_context: false, ..b });
        if !c.condensed {
            let d = NavView { toggled, ..c };
            NavView { active: active_for(d), ..d }
        } else {
            c
        }
    } else {
        b
    }
}

/// The widest the nav bar is drawn, in logical pixels.
pub const NAV_BAR_MAX_WIDTH: u16 = 280;

/// What the entries need, bounded by what the panel will draw: past the
/// maximum the panel stops growing, and a label too wide is cut short.
pub open spec fn bounded_min(min: int) -> int {
    if min < NAV_BAR_MAX_WIDTH {
        min
    } else {
        NAV_BAR_MAX_WIDTH as int
    }
}

/// Where the panel is drawn to, dragged to `width` or not, for entries that
/// need `min`.
pub open spec fn effective_width(width: Option<u16>, min: int) -> int {
    let dragged = match width {
        Some(w) => w as int,
        None => 0,
    };
    let wider = if dragged > bounded_min(min) {
        dragged
    } else {
        bounded_min(min)
    };
    if wider < NAV_BAR_MAX_WIDTH {
        wider
    } else {
        NAV_BAR_MAX_WIDTH as int
    }
}

/// The width a drag asking for `target` gives: `target` kept between what
/// the entries need and the most the panel and the window's `room` allow,
/// or the entries' need where that is more.
pub open spec fn dragged_width(target: int, min: int, room: int) -> int {
    let low = bounded_min(min);
    let most = if room < NAV_BAR_MAX_WIDTH {
        room
    } else {
        NAV_BAR_MAX_WIDTH as int
    };
    let high = if most > low {
        most
    } else {
        low
    };
    if target < low {
        low
    } else if target > high {
        high
    } else {
        target
    }
}

/// The context drawer's width in a window `available` pixels wide.
pub open spec fn context_width_for(width: Option<u16>, has_nav: bool, available: int) -> int {
    let reserved = if has_nav {
        368 + effective_width(width, 280) + 8
    } else {
        368
    };
    let left = available - reserved;
    let capped = if left < 480 {
        left
    } else {
        480
    };
    if capped > 344 {
        capped
    } else {
        344
    }
}

/// The state of the nav bar panel.
pub struct NavBar {
    active: bool,
    toggled: bool,
    toggled_condensed: bool,
    /// The width the panel has been dragged to, in logical pixels, or none
    /// while it is left at the width its entries need.
    width: Option<u16>,
    /// The width when the drag in progress started, if there is one.
    resize_from: Option<u16>,
}

/// The window and nav-bar state the shell keeps: the nav bar, the context
/// drawer, and whether the layout is condensed.
pub struct Core {
    nav_bar: NavBar,
    show_context: bool,
    context_is_overlay: bool,
    condensed: bool,
    narrow: bool,
    narrow_with_drawer: bool,
    content_container: bool,
    border_padding: Option<u16>,
}

impl Core {
    /// The state as a value.
    pub closed spec fn view(&self) -> NavView {
        NavView {
            active: self.nav_bar.active,
            toggled: self.nav_bar.toggled,
            toggled_condensed: self.nav_bar.toggled_condensed,
            show_context: self.show_context,
            context_is_overlay: self.context_is_overlay,
            condensed: self.condensed,
            narrow: self.narrow,
            narrow_with_drawer: self.narrow_with_drawer,
        }
    }

    /// The width the nav bar has been dragged to, and the width a drag in
    /// progress started from.
    pub closed spec fn widths(&self) -> (Option<u16>, Option<u16>) {
        (self.nav_bar.width, self.nav_bar.resize_from)
    }

    /// The layout and the nav bar's visibility agree with the measurements
    /// and the open panels.
    pub open spec fn wf(&self) -> bool {
        &&& self.view().condensed == condensed_for(self.view())
        &&& self.view().active == active_for(self.view())
    }

    /// A wide window with the nav bar open, no drawer shown, and a drawer
    /// that floats over the content.
    pub fn new() -> (r: Self)
        ensures
            r.wf(),
            r.view() == (NavView {
                active: true,
                toggled: true,
                toggled_condensed: false,
                show_context: false,
                context_is_overlay: true,
                condensed: false,
                narrow: false,
                narrow_with_drawer: false,
            }),
            r.widths() == (None::<u16>, None::<u16>),
            r.chrome() == (true, None::<u16>),
    {
        Core {
            nav_bar: NavBar { active: true, toggled: true, toggled_condensed: false, width: None, resize_from: None },
            show_context: false,
            context_is_overlay: true,
            condensed: false,
            narrow: false,
            narrow_with_drawer: false,
            content_container: true,
            border_padding: None,
        }
    }

    fn update_active(&mut self)
        ensures
            final(self).widths() == old(self).widths(),
            final(self).chrome() == old(self).chrome(),
            final(self).view() == (NavView { active: active_for(old(self).view()), ..old(self).view() }),
    {
        self.nav_bar.active = if self.condensed {
            self.nav_bar.toggled_condensed
        } else {
            self.nav_bar.toggled
        };
    }

    fn remeasure(&mut self)
        ensures
            final(self).widths() == old(self).widths(),
            final(self).chrome() == old(self).chrome(),
            final(self).view() == remeasured(old(self).view()),
    {
        self.condensed = if self.show_context && !self.context_is_overlay {
            self.narrow_with_drawer
        } else {
            self.narrow
        };
        self.update_active();
    }

    /// Whether the layout is condensed.
    pub fn is_condensed(&self) -> (r: bool)
        ensures
            r == self.view().condensed,
    {
        self.condensed
    }

    /// Whether the nav bar is shown.
    pub fn nav_bar_active(&self) -> (r: bool)
        ensures
            r == self.view().active,
    {
        self.nav_bar.active
    }

    /// Whether the context drawer is shown.
    pub fn show_context(&self) -> (r: bool)
        ensures
            r == self.view().show_context,
    {
        self.show_context
    }

    /// Whether the main content is shown: always in the wide layout, and in
    /// the condensed one unless the nav bar covers it.
    pub fn show_content(&self) -> (r: bool)
        ensures
            r == (!self.view().condensed || !self.view().toggled_condensed),
    {
        !self.condensed || !self.nav_bar.toggled_condensed
    }

    /// Take new measurements of the window: `narrow` when the nav bar and
    /// the content do not fit, `narrow_with_drawer` when they do not fit
    /// beside an inline drawer.
    pub fn set_fit(&mut self, narrow: bool, narrow_with_drawer: bool)
        ensures
            final(self).widths() == old(self).widths(),
            final(self).chrome() == old(self).chrome(),
            final(self).wf(),
            final(self).view() == remeasured(
                NavView { narrow, narrow_with_drawer, ..old(self).view() },
            ),
    {
        self.narrow = narrow;
        self.narrow_with_drawer = narrow_with_drawer;
        self.remeasure();
    }

    /// Make the drawer float over the content, or take its own column.
    pub fn set_context_is_overlay(&mut self, overlay: bool)
        ensures
            final(self).widths() == old(self).widths(),
            final(self).chrome() == old(self).chrome(),
            final(self).wf(),
            final(self).view() == remeasured(NavView { context_is_overlay: overlay, ..old(self).view() }),
    {
        self.context_is_overlay = overlay;
        self.remeasure();
    }

    /// Show or hide the context drawer.
    pub fn set_show_context(&mut self, show: bool)
        ensures
            final(self).widths() == old(self).widths(),
            final(self).chrome() == old(self).chrome(),
            final(self).wf(),
            final(self).view() == after_show_context(old(self).view(), show),
    {
        self.show_context = show;
        self.remeasure();
        if self.condensed && self.nav_bar.toggled_condensed && self.show_context && !self.context_is_overlay {
            self.nav_bar.toggled_condensed = false;
            self.remeasure();
        }
    }

    /// Open or close the nav bar in the condensed layout.
    pub fn nav_bar_set_toggled_condensed(&mut self, toggled: bool)
        ensures
            final(self).widths() == old(self).widths(),
            final(self).chrome() == old(self).chrome(),
            final(self).view() == after_toggled_condensed(old(self).view(), toggled),
            old(self).wf() ==> final(self).wf(),
    {
        self.nav_bar.toggled_condensed = toggled;
        self.update_active();
        if self.condensed && self.nav_bar.toggled_condensed && self.show_context && !self.context_is_overlay {
            self.show_context = false;
            self.remeasure();
            if !self.condensed {
                self.nav_bar.toggled = toggled;
                self.update_active();
            }
        }
    }

    /// Open or close the nav bar, in both layouts.
    pub fn nav_bar_set_toggled(&mut self, toggled: bool)
        ensures
            final(self).widths() == old(self).widths(),
            final(self).chrome() == old(self).chrome(),
            final(self).view() == after_toggled_condensed(
                NavView { toggled, ..old(self).view() },
                toggled,
            ),
            old(self).wf() ==> final(self).wf(),
    {
        self.nav_bar.toggled = toggled;
        self.nav_bar_set_toggled_condensed(toggled);
    }

    /// Flip the nav bar, in both layouts.
    pub fn nav_bar_toggle(&mut self)
        ensures
            final(self).widths() == old(self).widths(),
            final(self).chrome() == old(self).chrome(),
            final(self).view() == after_toggled_condensed(
                NavView { toggled: !old(self).view().toggled, ..old(self).view() },
                !old(self).view().toggled,
            ),
            old(self).wf() ==> final(self).wf(),
    {
        let t = !self.nav_bar.toggled;
        self.nav_bar_set_toggled(t);
    }

    /// Flip the nav bar of the condensed layout.
    pub fn nav_bar_toggle_condensed(&mut self)
        ensures
            final(self).widths() == old(self).widths(),
            final(self).chrome() == old(self).chrome(),
            final(self).view() == after_toggled_condensed(old(self).view(), !old(self).view().toggled_condensed),
            old(self).wf() ==> final(self).wf(),
    {
        let t = !self.nav_bar.toggled_condensed;
        self.nav_bar_set_toggled_condensed(t);
    }
}

impl Core {
    /// The width the nav bar has been dragged to, if it has been.
    pub fn nav_bar_width(&self) -> (r: Option<u16>)
        ensures
            r == self.widths().0,
    {
        self.nav_bar.width
    }

    /// Restore a width saved from an earlier session, or leave the panel at
    /// the width its entries need.
    pub fn set_nav_bar_width(&mut self, width: Option<u16>)
        ensures
            final(self).view() == old(self).view(),
            final(self).widths() == (width, old(self).widths().1),
            final(self).chrome() == old(self).chrome(),
    {
        self.nav_bar.width = width;
    }

    /// Where the panel is drawn to, for a nav bar whose entries need `min`
    /// pixels: the width it was dragged to or what the entries need,
    /// whichever is wider, and never past [`NAV_BAR_MAX_WIDTH`]. A saved
    /// width narrower than the entries loses to them, and one past the
    /// maximum is ignored.
    pub fn nav_bar_effective_width(&self, min: u16) -> (r: u16)
        ensures
            r == effective_width(self.widths().0, min as int),
    {
        let dragged: u16 = match self.nav_bar.width {
            Some(w) => w,
            None => 0,
        };
        let need = if min < NAV_BAR_MAX_WIDTH {
            min
        } else {
            NAV_BAR_MAX_WIDTH
        };
        let wider = if dragged > need {
            dragged
        } else {
            need
        };
        if wider < NAV_BAR_MAX_WIDTH {
            wider
        } else {
            NAV_BAR_MAX_WIDTH
        }
    }

    /// The pointer went down on the divider beside the nav bar, whose
    /// entries need `min` pixels: the drag starts from where the panel is
    /// drawn to.
    pub fn nav_bar_resize_start(&mut self, min: u16)
        ensures
            final(self).view() == old(self).view(),
            final(self).widths() == (old(self).widths().0, Some(effective_width(old(self).widths().0, min as int) as u16)),
            final(self).chrome() == old(self).chrome(),
    {
        let from = self.nav_bar_effective_width(min);
        self.nav_bar.resize_from = Some(from);
    }

    /// The pointer moved during a drag: `target` is the width it asks for
    /// (the starting width plus how far it moved, in whole pixels), `min`
    /// what the entries need, and `room` the width the window can spare
    /// beside the content's reserve. The width follows the pointer between
    /// what the entries need and the most the panel or the window allows,
    /// so the divider stops where the panel does and moves again as soon as
    /// the pointer comes back. Outside a drag nothing changes.
    pub fn nav_bar_resize_drag(&mut self, target: i32, min: u16, room: i32)
        ensures
            final(self).view() == old(self).view(),
            final(self).widths() == (if old(self).widths().1 is Some {
                (Some(dragged_width(target as int, min as int, room as int) as u16), old(self).widths().1)
            } else {
                old(self).widths()
            }),
            final(self).chrome() == old(self).chrome(),
    {
        if self.nav_bar.resize_from.is_none() {
            return;
        }
        let low: i32 = if min < NAV_BAR_MAX_WIDTH {
            min as i32
        } else {
            NAV_BAR_MAX_WIDTH as i32
        };
        let most: i32 = if room < NAV_BAR_MAX_WIDTH as i32 {
            room
        } else {
            NAV_BAR_MAX_WIDTH as i32
        };
        let high: i32 = if most > low {
            most
        } else {
            low
        };
        let w: i32 = if target < low {
            low
        } else if target > high {
            high
        } else {
            target
        };
        self.nav_bar.width = Some(w as u16);
    }

    /// The width available to the context drawer, in a window `available`
    /// logical pixels wide: what is left beside the content's 360 pixels and
    /// their padding, and beside the nav bar (at its natural 280 pixels or
    /// whatever it was dragged to, and its padding) when `has_nav`; never
    /// under the drawer's 344-pixel minimum nor over 480.
    pub fn context_width(&self, has_nav: bool, available: i32) -> (r: i32)
        ensures
            r == context_width_for(self.widths().0, has_nav, available as int),
    {
        let reserved: i32 = if has_nav {
            368 + self.nav_bar_effective_width(280) as i32 + 8
        } else {
            368
        };
        let left: i32 = if available >= i32::MIN + reserved {
            available - reserved
        } else {
            i32::MIN
        };
        let capped = if left < 480 {
            left
        } else {
            480
        };
        if capped > 344 {
            capped
        } else {
            344
        }
    }

    /// How much width the drawer takes from the content, which is how far it
    /// slides: its width, plus the 8 pixels it sits in from the edge when it
    /// floats, or plus one border padding (7 unless set) when it is inline
    /// beside a content container.
    pub fn drawer_extent(&self, has_nav: bool, available: i32) -> (r: i32)
        ensures
            r == context_width_for(self.widths().0, has_nav, available as int) + (if self.view().context_is_overlay {
                8
            } else if self.chrome().0 {
                (match self.chrome().1 {
                    Some(p) => p as int,
                    None => 7,
                })
            } else {
                0
            }),
    {
        let width = self.context_width(has_nav, available);
        if self.context_is_overlay {
            width + 8
        } else if self.content_container {
            let pad: u16 = match self.border_padding {
                Some(p) => p,
                None => 7,
            };
            width + pad as i32
        } else {
            width
        }
    }

    /// Whether the content sits in a container, and the border padding set
    /// for it.
    pub closed spec fn chrome(&self) -> (bool, Option<u16>) {
        (self.content_container, self.border_padding)
    }

    /// Whether the content sits in a container.
    pub fn set_content_container(&mut self, container: bool)
        ensures
            final(self).view() == old(self).view(),
            final(self).widths() == old(self).widths(),
            final(self).chrome() == (container, old(self).chrome().1),
    {
        self.content_container = container;
    }

    /// The padding round the window's content, or the default.
    pub fn set_border_padding(&mut self, padding: Option<u16>)
        ensures
            final(self).view() == old(self).view(),
            final(self).widths() == old(self).widths(),
            final(self).chrome() == (old(self).chrome().0, padding),
    {
        self.border_padding = padding;
    }

    /// The drag ended. Returns the new width when a drag was under way and
    /// the width now differs from where it started, which is what is worth
    /// saving; either way the drag is over.
    pub fn nav_bar_resize_end(&mut self) -> (r: Option<u16>)
        ensures
            final(self).view() == old(self).view(),
            final(self).widths() == (old(self).widths().0, None::<u16>),
            final(self).chrome() == old(self).chrome(),
            r == (match old(self).widths() {
                (Some(w), Some(from)) => if w != from {
                    Some(w)
                } else {
                    None
                },
                _ => None,
            }),
    {
        let from = match self.nav_bar.resize_from.take() {
            Some(f) => f,
            None => return None,
        };
        let w = match self.nav_bar.width {
            Some(w) => w,
            None => return None,
        };
        if w != from {
            Some(w)
        } else {
            None
        }
    }
}

impl Default for Core {
    /// A wide window with the nav bar open, no drawer shown, a drawer that
    /// floats over the content, and the panel at its natural width.
    fn default() -> (r: Self)
        ensures
            r.wf(),
            r.view() == (NavView {
                active: true,
                toggled: true,
                toggled_condensed: false,
                show_context: false,
                context_is_overlay: true,
                condensed: false,
                narrow: false,
                narrow_with_drawer: false,
            }),
            r.widths() == (None::<u16>, None::<u16>),
            r.chrome() == (true, None::<u16>),
    {
        Core::new()
    }
}

/// The `apply` combinator: `x.apply(f)` is `f(x)`, so a value can be
/// threaded through a function in the middle of a chain of calls.
pub trait Apply: Sized {
    fn apply<R>(self, f: impl FnOnce(Self) -> R) -> (r: R)
        requires
            call_requires(f, (self,)),
        ensures
            call_ensures(f, (self,), r),
    {
        f(self)
    }
}

impl<T> Apply for T {}

/// Showing or hiding the drawer, and opening or closing the condensed nav
/// bar, never leave both open where they do not fit.
pub proof fn lemma_panels_never_collide(v: NavView, show: bool, toggled: bool)
    ensures
        !conflict(after_show_context(v, show)),
        !conflict(after_toggled_condensed(v, toggled)),
{
}

/// A drag keeps the nav bar between what its entries need and the most the
/// panel and the window allow (or the need, where that is more), and where
/// the pointer asks for a width in that range it gets exactly that width:
/// dragging back from past a stop moves the divider again straight away.
pub proof fn lemma_a_drag_follows_the_pointer_between_its_stops(target: int, min: int, room: int)
    requires
        0 <= min,
    ensures
        bounded_min(min) <= dragged_width(target, min, room) <= NAV_BAR_MAX_WIDTH,
        bounded_min(min) <= target <= room && target <= NAV_BAR_MAX_WIDTH ==> dragged_width(target, min, room) == target,
        target <= bounded_min(min) ==> dragged_width(target, min, room) == bounded_min(min),
{
}

/// Which way a popup grows from its anchor point, as xdg-shell's positioner
/// gravity says.
#[derive(Clone, Copy, Debug, PartialEq, Eq, Structural)]
pub enum PopupGravity {
    /// Centred on the anchor: xdg-shell's `none`.
    Center,
    Top,
    Bottom,
    Left,
    Right,
    TopLeft,
    BottomLeft,
    TopRight,
    BottomRight,
}

/// A corner of a popup.
#[derive(Clone, Copy, Debug, PartialEq, Eq, Structural)]
pub enum Corner {
    TopLeft,
    TopRight,
    BottomLeft,
    BottomRight,
}

/// The corner a popup with `gravity` collapses into.
pub open spec fn corner_for(gravity: PopupGravity) -> Corner {
    match gravity {
        PopupGravity::BottomRight => Corner::TopLeft,
        PopupGravity::BottomLeft => Corner::TopRight,
        PopupGravity::TopRight => Corner::BottomLeft,
        PopupGravity::TopLeft => Corner::BottomRight,
        _ => Corner::TopLeft,
    }
}

/// The corner a popup collapses into when it closes: the one at its anchor,
/// opposite the way it grew. A gravity without a corner collapses to the
/// top left, as the usual bottom-right gravity does.
pub fn collapse_corner(gravity: PopupGravity) -> (r: Corner)
    ensures
        r == corner_for(gravity),
{
    match gravity {
        PopupGravity::BottomRight => Corner::TopLeft,
        PopupGravity::BottomLeft => Corner::TopRight,
        PopupGravity::TopRight => Corner::BottomLeft,
        PopupGravity::TopLeft => Corner::BottomRight,
        _ => Corner::TopLeft,
    }
}

/// The four corner gravities collapse into four different corners.
pub proof fn lemma_corners_distinct(a: PopupGravity, b: PopupGravity)
    requires
        a == PopupGravity::TopLeft || a == PopupGravity::TopRight || a == PopupGravity::BottomLeft
            || a == PopupGravity::BottomRight,
        b == PopupGravity::TopLeft || b == PopupGravity::TopRight || b == PopupGravity::BottomLeft
            || b == PopupGravity::BottomRight,
        a != b,
    ensures
        corner_for(a) != corner_for(b),
{
}

/// The windowing backends.
#[derive(Clone, Copy, Debug, PartialEq, Eq, Structural)]
pub enum WindowingSystem {
    Wayland,
    Xlib,
    Xcb,
    Drm,
    Gbm,
}

/// The windowing system, recorded once, when the main window opens.
pub struct WindowingSlot {
    system: Option<WindowingSystem>,
}

impl WindowingSlot {
    /// What has been recorded.
    pub closed spec fn recorded(&self) -> Option<WindowingSystem> {
        self.system
    }

    /// A slot with nothing recorded.
    pub fn new() -> (r: Self)
        ensures
            r.recorded() is None,
    {
        WindowingSlot { system: None }
    }

    /// Record `system`, unless a system was recorded already; the first
    /// record stands. Returns whether this one was recorded.
    pub fn set(&mut self, system: WindowingSystem) -> (r: bool)
        ensures
            r == old(self).recorded() is None,
            final(self).recorded() == (match old(self).recorded() {
                Some(s) => Some(s),
                None => Some(system),
            }),
    {
        match self.system {
            Some(_) => false,
            None => {
                self.system = Some(system);
                true
            },
        }
    }
}

/// The windowing system detected, if the main window has opened.
pub fn windowing_system(slot: &WindowingSlot) -> (r: Option<WindowingSystem>)
    ensures
        r == slot.recorded(),
{
    slot.system
}

/// The windows that had the focus, the focused one last.
pub struct FocusChain {
    windows: Vec<u64>,
}

impl FocusChain {
    /// The chain, oldest first.
    pub closed spec fn view(&self) -> Seq<u64> {
        self.windows@
    }

    /// No window focused.
    pub fn new() -> (r: Self)
        ensures
            r.view() == Seq::<u64>::empty(),
    {
        FocusChain { windows: Vec::new() }
    }

    /// Window `id` took the focus: it alone is the chain.
    pub fn focus(&mut self, id: u64)
        ensures
            final(self).view() == seq![id],
    {
        self.windows = vec![id];
    }

    /// Window `id` lost the focus: it leaves the chain when it is the
    /// focused one; otherwise nothing changes.
    pub fn unfocus(&mut self, id: u64)
        ensures
            final(self).view() == (if old(self).view().len() > 0 && old(self).view().last() == id {
                old(self).view().drop_last()
            } else {
                old(self).view()
            }),
    {
        let n = self.windows.len();
        if n > 0 && self.windows[n - 1] == id {
            self.windows.pop();
        }
    }

    /// The focused window, if any.
    pub fn focused(&self) -> (r: Option<u64>)
        ensures
            r == (if self.view().len() > 0 {
                Some(self.view().last())
            } else {
                None::<u64>
            }),
    {
        let n = self.windows.len();
        if n > 0 {
            Some(self.windows[n - 1])
        } else {
            None
        }
    }

    /// The chain, oldest first.
    pub fn chain(&self) -> (r: &Vec<u64>)
        ensures
            r@ == self.view(),
    {
        &self.windows
    }
}

} // verus!
