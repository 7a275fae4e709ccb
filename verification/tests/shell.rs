use earth_files::shell::{
    collapse_corner, windowing_system, Apply, Core, Corner, FocusChain, PopupGravity, WindowingSlot,
    WindowingSystem,
};

#[test]
fn a_popup_collapses_toward_the_corner_its_gravity_grew_from() {
    assert_eq!(collapse_corner(PopupGravity::BottomRight), Corner::TopLeft);
    assert_eq!(collapse_corner(PopupGravity::BottomLeft), Corner::TopRight);
    assert_eq!(collapse_corner(PopupGravity::TopRight), Corner::BottomLeft);
    assert_eq!(collapse_corner(PopupGravity::TopLeft), Corner::BottomRight);
}

#[test]
fn the_four_corners_are_distinct() {
    let corners = [
        collapse_corner(PopupGravity::BottomRight),
        collapse_corner(PopupGravity::BottomLeft),
        collapse_corner(PopupGravity::TopRight),
        collapse_corner(PopupGravity::TopLeft),
    ];

    for (i, a) in corners.iter().enumerate() {
        for b in &corners[i + 1..] {
            assert_ne!(a, b, "two gravities map to {a:?}");
        }
    }
}

#[test]
fn a_gravity_without_a_corner_falls_back_to_the_usual_one() {
    assert_eq!(collapse_corner(PopupGravity::Center), Corner::TopLeft);
    assert_eq!(collapse_corner(PopupGravity::Top), Corner::TopLeft);
}

/// A nav bar whose entries need this much room.
const MIN: u16 = 200;

/// What a 1600-pixel window spares beside the content's reserve of 376.
const ROOM: i32 = 1600 - 376;

/// The width a drag started from, for a drag of `delta` pixels.
fn target(core: &Core, delta: i32) -> i32 {
    i32::from(core.nav_bar_effective_width(MIN)) + delta
}

#[test]
fn only_a_drag_that_moved_is_worth_saving() {
    let mut core = Core::default();

    core.nav_bar_resize_start(MIN);
    core.nav_bar_resize_drag(200, MIN, ROOM);
    assert_eq!(core.nav_bar_resize_end(), None);

    core.nav_bar_resize_start(MIN);
    core.nav_bar_resize_drag(200 + 60, MIN, ROOM);
    assert_eq!(core.nav_bar_resize_end(), Some(260));
    // The release arrives after the drag ended, and must not save again
    assert_eq!(core.nav_bar_resize_end(), None);
    assert_eq!(core.nav_bar_width(), Some(260));
}

#[test]
fn an_undragged_nav_bar_is_as_wide_as_its_entries() {
    let core = Core::default();
    assert_eq!(core.nav_bar_width(), None);
    assert_eq!(core.nav_bar_effective_width(MIN), MIN);
}

#[test]
fn a_drag_stops_at_the_widest_entry_and_moves_again_on_the_way_back() {
    let mut core = Core::default();
    core.nav_bar_resize_start(MIN);
    let from = target(&core, 0);

    core.nav_bar_resize_drag(from + 50, MIN, ROOM);
    assert_eq!(core.nav_bar_width(), Some(250));

    // Dragging far past the entries leaves the width on them rather than
    // letting it run on out of sight, so there is no distance to make up
    // before the divider follows the pointer out again.
    core.nav_bar_resize_drag(from - 500, MIN, ROOM);
    assert_eq!(core.nav_bar_width(), Some(200));
    core.nav_bar_resize_drag(from + 40, MIN, ROOM);
    assert_eq!(core.nav_bar_width(), Some(240));
}

#[test]
fn a_drag_stops_where_the_panel_stops_growing() {
    let mut core = Core::default();
    core.nav_bar_resize_start(MIN);
    core.nav_bar_resize_drag(target(&core, 5000), MIN, ROOM);
    assert_eq!(core.nav_bar_width(), Some(280));
}

#[test]
fn a_narrow_window_stops_the_drag_sooner_still() {
    let mut core = Core::default();
    core.nav_bar_resize_start(MIN);
    core.nav_bar_resize_drag(target(&core, 5000), MIN, 600 - 376);
    assert_eq!(core.nav_bar_width(), Some(600 - 376));
}

#[test]
fn a_drag_outside_a_drag_changes_nothing() {
    let mut core = Core::default();
    core.nav_bar_resize_drag(260, MIN, ROOM);
    assert_eq!(core.nav_bar_width(), None);
}

#[test]
fn entries_too_wide_to_draw_do_not_reserve_room_for_themselves() {
    let core = Core::default();
    assert_eq!(core.nav_bar_effective_width(600), 280);
}

#[test]
fn a_drag_against_an_oversized_minimum_still_stops_at_the_maximum() {
    let mut core = Core::default();
    core.nav_bar_resize_start(600);
    let from = i32::from(core.nav_bar_effective_width(600));
    core.nav_bar_resize_drag(from + 100, 600, ROOM);
    assert_eq!(core.nav_bar_width(), Some(280));
}

#[test]
fn a_saved_width_past_the_maximum_is_ignored() {
    let mut core = Core::default();
    core.set_nav_bar_width(Some(5000));
    assert_eq!(core.nav_bar_effective_width(MIN), 280);
}

#[test]
fn a_saved_width_narrower_than_the_entries_loses_to_them() {
    let mut core = Core::default();
    core.set_nav_bar_width(Some(120));
    assert_eq!(core.nav_bar_effective_width(240), 240);
}

#[test]
fn a_wider_entry_widens_a_panel_already_at_its_minimum() {
    let core = Core::default();
    assert_eq!(core.nav_bar_effective_width(200), 200);
    assert_eq!(core.nav_bar_effective_width(260), 260);
}

#[test]
fn the_drawer_takes_its_width_plus_what_its_padding_adds() {
    // 1600 wide, no nav: the drawer is at its 480px maximum.
    let mut core = Core::default();

    core.set_context_is_overlay(false);
    core.set_content_container(true);
    core.set_border_padding(None);
    assert_eq!(core.drawer_extent(false, 1600), 487);

    core.set_content_container(false);
    assert_eq!(core.drawer_extent(false, 1600), 480);

    core.set_context_is_overlay(true);
    assert_eq!(core.drawer_extent(false, 1600), 488);
}

#[test]
fn the_drawer_keeps_its_minimum_in_a_narrow_window_and_gives_way_to_the_nav() {
    let mut core = Core::default();
    assert_eq!(core.context_width(false, 600), 344);
    // 1000 wide with the nav at its natural 280: 1000 - 368 - 288 = 344.
    assert_eq!(core.context_width(true, 1000), 344);
    assert_eq!(core.context_width(true, 1100), 444);
    // The nav is reserved at least its natural width.
    core.set_nav_bar_width(Some(200));
    assert_eq!(core.context_width(true, 1100), 444);
    core.set_border_padding(Some(3));
    core.set_context_is_overlay(false);
    assert_eq!(core.drawer_extent(true, 1000), 344 + 3);
}

#[test]
fn a_wide_window_shows_the_nav_bar_and_the_content() {
    let nav = Core::default();
    assert!(nav.nav_bar_active());
    assert!(!nav.is_condensed());
    assert!(nav.show_content());
}

#[test]
fn opening_an_inline_drawer_in_a_narrow_window_closes_the_nav_bar() {
    let mut nav = Core::default();
    nav.set_context_is_overlay(false);
    // The nav bar and the content fit, but not beside the drawer as well.
    nav.set_fit(false, true);
    nav.nav_bar_set_toggled_condensed(true);
    nav.set_show_context(true);
    assert!(nav.is_condensed());
    assert!(nav.show_context());
    assert!(!nav.nav_bar_active());
    assert!(nav.show_content());
}

#[test]
fn opening_the_nav_bar_in_a_narrow_window_closes_an_inline_drawer() {
    let mut nav = Core::default();
    nav.set_context_is_overlay(false);
    nav.set_fit(true, true);
    nav.set_show_context(true);
    nav.nav_bar_toggle_condensed();
    assert!(!nav.show_context());
    assert!(nav.nav_bar_active());
    assert!(!nav.show_content());
}

#[test]
fn closing_the_drawer_can_make_the_layout_wide_again() {
    let mut nav = Core::default();
    nav.set_context_is_overlay(false);
    nav.set_fit(false, true);
    nav.nav_bar_set_toggled(false);
    nav.set_show_context(true);
    assert!(nav.is_condensed());
    nav.nav_bar_set_toggled_condensed(true);
    // The drawer closed, the window is wide again, and the wide nav bar follows.
    assert!(!nav.show_context());
    assert!(!nav.is_condensed());
    assert!(nav.nav_bar_active());
}

#[test]
fn the_first_windowing_system_recorded_stands() {
    let mut slot = WindowingSlot::new();
    assert_eq!(windowing_system(&slot), None);
    assert!(slot.set(WindowingSystem::Wayland));
    assert!(!slot.set(WindowingSystem::Xcb));
    assert_eq!(windowing_system(&slot), Some(WindowingSystem::Wayland));
}

#[test]
fn apply_threads_a_value_through_a_function() {
    assert_eq!(3.apply(|x| x * 2), 6);
    assert_eq!(String::from("a").apply(|s| s + "b"), "ab");
}

#[test]
fn toggling_the_nav_bar_flips_it_in_the_wide_layout() {
    let mut nav = Core::default();
    assert!(nav.nav_bar_active());
    nav.nav_bar_toggle();
    assert!(!nav.nav_bar_active());
    nav.nav_bar_toggle();
    assert!(nav.nav_bar_active());
}

#[test]
fn the_focus_chain_forgets_only_the_focused_window() {
    let mut chain = FocusChain::new();
    assert_eq!(chain.focused(), None);
    chain.focus(1);
    assert_eq!(chain.focused(), Some(1));
    // Another window losing the focus changes nothing.
    chain.unfocus(2);
    assert_eq!(chain.chain(), &vec![1]);
    chain.unfocus(1);
    assert_eq!(chain.focused(), None);
    chain.focus(3);
    chain.focus(4);
    assert_eq!(chain.chain(), &vec![4]);
}
