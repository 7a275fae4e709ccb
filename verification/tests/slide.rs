use earth_files::slide::{Edge, PanelSlide, Run, SlideAction, SlidePath};

const EPS: f32 = 1e-3;

fn close(a: f32, b: f32) -> bool {
    (a - b).abs() < EPS
}

/// The pieces of a slide from rest; panics on any other action.
fn started(action: SlideAction<f32>) -> (SlidePath, Run, Option<Run>, f32) {
    match action {
        SlideAction::Start { path, panel, columns, extent } => (path, panel, columns, extent),
        other => panic!("expected a slide from rest, got {other:?}"),
    }
}

/// The pieces of a turn-round; panics on any other action.
fn turned(action: SlideAction<f32>) -> (i8, Option<i8>, f32) {
    match action {
        SlideAction::TurnRound { panel_to, columns_to, extent } => (panel_to, columns_to, extent),
        other => panic!("expected a turn-round, got {other:?}"),
    }
}

/// Where a track is at, in pixels, `at` extents from its place.
fn px(at: i8, extent: f32) -> f32 {
    f32::from(at) * extent
}

fn first_look_latches(mut slide: PanelSlide<f32>) {
    assert!(!slide.starts_slide(true, false), "nothing observed yet");

    let action = slide.sync(true, false, false, 400.0, true);

    assert_eq!(action, SlideAction::Nothing);
    assert!(slide.column_slide(false).is_none());
}

fn opening_slides_in_and_settles(mut slide: PanelSlide<f32>) {
    slide.sync(false, false, false, 0.0, false);

    assert!(slide.starts_slide(true, false));
    let (path, panel, columns, extent) = started(slide.sync(true, false, false, 400.0, true));

    assert_eq!(path, SlidePath::Columns);
    assert_eq!(slide.path(), SlidePath::Columns);
    assert!(close(px(panel.from, extent), 400.0), "starts off-screen");
    assert!(close(px(panel.to, extent), 0.0));
    let columns = columns.expect("the drawer moves the columns");
    let running = slide.column_slide(true).expect("a column slide is running");
    assert!(close(running, 400.0));
    assert!(close(px(columns.from, extent), 0.0));
    assert!(close(px(columns.to, extent), -400.0));

    // Settled: the engine no longer has the panel moving.
    assert!(slide.column_slide(false).is_none());
}

fn closing_slides_out(mut slide: PanelSlide<f32>) {
    slide.sync(true, false, false, 0.0, false);

    let (_, panel, columns, extent) = started(slide.sync(false, false, false, 400.0, true));

    assert!(close(px(panel.from, extent), 0.0));
    assert!(close(px(panel.to, extent), 400.0));
    assert!(slide.column_slide(true).is_some(), "a column slide is running");
    let columns = columns.expect("the drawer moves the columns");
    assert!(close(px(columns.from, extent), -400.0));
    assert!(close(px(columns.to, extent), 0.0));
}

fn turning_round_keeps_track_path_and_extent(mut slide: PanelSlide<f32>) {
    slide.sync(false, false, false, 0.0, false);
    started(slide.sync(true, false, false, 400.0, true));

    assert!(!slide.starts_slide(false, true), "a reversal is not a new slide");
    // A different extent and no fit: both must be ignored mid-slide.
    let (panel_to, columns_to, extent) = turned(slide.sync(false, false, true, 999.0, false));

    assert_eq!(slide.path(), SlidePath::Columns);
    assert!(close(px(panel_to, extent), 400.0));
    assert!(close(px(columns_to.expect("the columns turn too"), extent), 0.0));
}

fn columns_path_needs_fit_and_no_condensing(drawer: fn() -> PanelSlide<f32>) {
    let mut no_fit = drawer();
    no_fit.sync(false, false, false, 0.0, false);
    no_fit.sync(true, false, false, 400.0, false);
    assert_eq!(no_fit.path(), SlidePath::Snap);
    assert!(no_fit.column_slide(true).is_none());

    let mut condenses = drawer();
    condenses.sync(false, false, false, 0.0, false);
    condenses.sync(true, true, false, 400.0, true);
    assert_eq!(condenses.path(), SlidePath::Snap);

    let mut was_condensed = drawer();
    was_condensed.sync(true, true, false, 0.0, false);
    was_condensed.sync(false, false, false, 400.0, true);
    assert_eq!(was_condensed.path(), SlidePath::Snap);
}

fn unchanged_observation_does_nothing(mut slide: PanelSlide<f32>) {
    slide.sync(true, false, false, 0.0, false);
    assert!(!slide.starts_slide(true, false));
    assert_eq!(slide.sync(true, false, false, 400.0, true), SlideAction::Nothing);
}

fn turning_round_twice_stays_on_one_track(mut slide: PanelSlide<f32>) {
    slide.sync(false, false, false, 0.0, false);
    started(slide.sync(true, false, false, 400.0, true));

    turned(slide.sync(false, false, true, 0.0, false));
    let (panel_to, columns_to, extent) = turned(slide.sync(true, false, true, 0.0, false));

    assert_eq!(slide.path(), SlidePath::Columns);
    assert!(close(px(panel_to, extent), 0.0));
    assert!(close(px(columns_to.expect("the columns turn too"), extent), -400.0));
}

fn slide_after_rest_starts_afresh(mut slide: PanelSlide<f32>) {
    slide.sync(false, false, false, 0.0, false);
    started(slide.sync(true, false, false, 400.0, true));

    let (path, panel, _, extent) = started(slide.sync(false, false, false, 300.0, false));

    assert_eq!(path, SlidePath::Snap);
    assert_eq!(slide.path(), SlidePath::Snap);
    assert!(close(px(panel.from, extent), 0.0), "starts at rest");
    assert!(close(px(panel.to, extent), 300.0));
}

#[test]
fn drawer_slide_the_first_look_latches_without_sliding() {
    first_look_latches(PanelSlide::drawer(0.0));
}

#[test]
fn drawer_slide_opening_slides_in_from_the_edge_and_settles() {
    opening_slides_in_and_settles(PanelSlide::drawer(0.0));
}

#[test]
fn drawer_slide_closing_slides_out_and_brings_the_columns_back() {
    closing_slides_out(PanelSlide::drawer(0.0));
}

#[test]
fn drawer_slide_turning_round_mid_slide_keeps_the_track_path_and_extent() {
    turning_round_keeps_track_path_and_extent(PanelSlide::drawer(0.0));
}

#[test]
fn drawer_slide_the_columns_path_needs_a_fit_and_no_condensing() {
    columns_path_needs_fit_and_no_condensing(|| PanelSlide::drawer(0.0));
}

#[test]
fn drawer_slide_an_unchanged_observation_does_nothing() {
    unchanged_observation_does_nothing(PanelSlide::drawer(0.0));
}

#[test]
fn drawer_slide_turning_round_twice_mid_slide_stays_on_one_track() {
    turning_round_twice_stays_on_one_track(PanelSlide::drawer(0.0));
}

#[test]
fn drawer_slide_a_slide_after_rest_starts_afresh_at_the_new_width() {
    slide_after_rest_starts_afresh(PanelSlide::drawer(0.0));
}

#[test]
fn panel_slide_the_first_look_latches_without_sliding() {
    first_look_latches(PanelSlide::drawer(0.0));
}

#[test]
fn panel_slide_opening_slides_in_from_the_edge_and_settles() {
    opening_slides_in_and_settles(PanelSlide::drawer(0.0));
}

#[test]
fn panel_slide_closing_slides_out_and_brings_the_columns_back() {
    closing_slides_out(PanelSlide::drawer(0.0));
}

#[test]
fn panel_slide_turning_round_mid_slide_keeps_the_track_path_and_extent() {
    turning_round_keeps_track_path_and_extent(PanelSlide::drawer(0.0));
}

#[test]
fn panel_slide_the_columns_path_needs_a_fit_and_no_condensing() {
    columns_path_needs_fit_and_no_condensing(|| PanelSlide::drawer(0.0));
}

#[test]
fn panel_slide_an_unchanged_observation_does_nothing() {
    unchanged_observation_does_nothing(PanelSlide::drawer(0.0));
}

#[test]
fn panel_slide_turning_round_twice_mid_slide_stays_on_one_track() {
    turning_round_twice_stays_on_one_track(PanelSlide::drawer(0.0));
}

#[test]
fn panel_slide_a_slide_after_rest_starts_afresh_at_the_new_width() {
    slide_after_rest_starts_afresh(PanelSlide::drawer(0.0));
}

#[test]
fn the_nav_slides_in_from_the_left_edge() {
    let mut slide = PanelSlide::nav(0.0);
    assert_eq!(slide.edge(), Edge::Left);
    slide.sync(false, false, false, 0.0, false);

    let (path, panel, columns, extent) = started(slide.sync(true, false, false, 300.0, true));

    assert_eq!(path, SlidePath::Snap, "no column path on the left");
    assert!(columns.is_none());
    assert!(slide.column_slide(true).is_none());
    assert!(close(px(panel.from, extent), -300.0), "starts off-screen");
    assert!(close(px(panel.to, extent), 0.0));
}

#[test]
fn the_nav_slides_out_to_the_left_and_turns_round() {
    let mut slide = PanelSlide::nav(0.0);
    slide.sync(true, false, false, 0.0, false);

    let (_, panel, _, extent) = started(slide.sync(false, false, false, 300.0, false));
    assert!(close(px(panel.to, extent), -300.0));

    let (panel_to, columns_to, extent) = turned(slide.sync(true, false, true, 999.0, false));
    assert!(columns_to.is_none());
    assert!(close(px(panel_to, extent), 0.0), "back in, at the old extent");
    assert!(close(extent, 300.0));
}

#[test]
fn the_nav_snaps_when_the_window_crosses_the_breakpoint() {
    let mut slide = PanelSlide::nav(0.0);
    slide.sync(true, false, false, 0.0, false);
    assert_eq!(
        slide.sync(false, true, false, 300.0, false),
        SlideAction::Stop,
        "hidden by condensing, not by a toggle"
    );

    // Mid-slide as well.
    let mut slide = PanelSlide::nav(0.0);
    slide.sync(false, false, false, 0.0, false);
    started(slide.sync(true, false, false, 300.0, false));
    assert_eq!(slide.sync(false, true, true, 0.0, false), SlideAction::Stop);
}

#[test]
fn crossing_the_breakpoint_mid_slide_stops_the_slide_at_its_old_width() {
    let mut slide = PanelSlide::nav(0.0);
    slide.sync(true, false, false, 0.0, false);
    started(slide.sync(false, false, false, 300.0, false));

    // Still hidden, but now condensed: 300px is no longer the panel's width.
    assert_eq!(slide.sync(false, true, true, 0.0, false), SlideAction::Stop);
}

#[test]
fn the_drawer_still_slides_across_the_breakpoint() {
    let mut slide = PanelSlide::drawer(0.0);
    slide.sync(false, false, false, 0.0, false);
    let (path, _, _, _) = started(slide.sync(true, true, false, 400.0, true));
    assert_eq!(path, SlidePath::Snap);
}

#[test]
fn the_outward_sign_points_off_screen() {
    assert_eq!(Edge::Left.outward(), -1);
    assert_eq!(Edge::Right.outward(), 1);
}
