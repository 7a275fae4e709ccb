use earth_files::thumbnail::{
    count_jobs_for, thumbnail_jobs_for, BackgroundItem, CacheLookup, ThumbnailAction, ThumbnailEvent, ThumbnailLimits, ThumbnailOutcome,
    ThumbnailPlan, ThumbnailSubject,
};

const LIMITS: ThumbnailLimits = ThumbnailLimits {
    max_size_mb: 64,
    max_mem_mb: 2000,
    jobs: 4,
    size: 256,
};

fn image(size: u64) -> ThumbnailSubject {
    ThumbnailSubject {
        is_image: true,
        is_svg: false,
        is_text: false,
        size,
        has_external: false,
    }
}

fn svg(size: u64) -> ThumbnailSubject {
    ThumbnailSubject {
        is_svg: true,
        ..image(size)
    }
}

fn text(size: u64) -> ThumbnailSubject {
    ThumbnailSubject {
        is_image: false,
        is_text: true,
        ..image(size)
    }
}

fn other(has_external: bool) -> ThumbnailSubject {
    ThumbnailSubject {
        is_image: false,
        is_svg: false,
        is_text: false,
        size: 4096,
        has_external,
    }
}

/// A plan for `subject` that has looked in the cache and found `lookup`.
fn after_lookup(subject: ThumbnailSubject, lookup: CacheLookup) -> (ThumbnailPlan, ThumbnailAction) {
    let (mut plan, first) = ThumbnailPlan::new(subject, LIMITS);
    assert_eq!(first, ThumbnailAction::LookUpCache(256));
    let next = plan.step(ThumbnailEvent::Cache(lookup));
    (plan, next)
}

#[test]
fn a_valid_cached_thumbnail_is_used_as_it_is() {
    let (_, next) = after_lookup(image(1000), CacheLookup::Valid);
    assert_eq!(next, ThumbnailAction::Finish(ThumbnailOutcome::Cached));
}

#[test]
fn a_decoded_image_goes_to_the_cache() {
    let (mut plan, next) = after_lookup(image(1000), CacheLookup::RequiresUpdate(256));
    assert_eq!(next, ThumbnailAction::ReadDimensions);
    // 2000 MB shared by four jobs.
    assert_eq!(
        plan.step(ThumbnailEvent::Dimensions(Some(false))),
        ThumbnailAction::Decode(500_000_000)
    );
    assert_eq!(plan.step(ThumbnailEvent::Decoded(true)), ThumbnailAction::StoreDecoded);
    assert_eq!(
        plan.step(ThumbnailEvent::Stored(true)),
        ThumbnailAction::Finish(ThumbnailOutcome::Decoded)
    );
}

#[test]
fn unreadable_dimensions_do_not_stop_the_decoder() {
    let (mut plan, _) = after_lookup(image(1000), CacheLookup::RequiresUpdate(256));
    assert!(matches!(
        plan.step(ThumbnailEvent::Dimensions(None)),
        ThumbnailAction::Decode(_)
    ));
}

#[test]
fn without_a_cache_a_decoded_image_is_scaled_in_memory() {
    let (mut plan, _) = after_lookup(image(1000), CacheLookup::Unavailable);
    plan.step(ThumbnailEvent::Dimensions(Some(false)));
    assert_eq!(
        plan.step(ThumbnailEvent::Decoded(true)),
        ThumbnailAction::Finish(ThumbnailOutcome::Scaled(256))
    );
}

#[test]
fn a_stale_thumbnail_is_remade_at_the_size_the_cache_asks_for() {
    let (mut plan, _) = after_lookup(image(1000), CacheLookup::RequiresUpdate(512));
    plan.step(ThumbnailEvent::Dimensions(Some(false)));
    assert_eq!(
        plan.step(ThumbnailEvent::Decoded(false)),
        ThumbnailAction::RunExternal(512, true)
    );
    assert_eq!(plan.step(ThumbnailEvent::External(true)), ThumbnailAction::StoreExternal);
    // A cache write that fails still leaves the thumbnail made.
    assert_eq!(
        plan.step(ThumbnailEvent::Stored(false)),
        ThumbnailAction::Finish(ThumbnailOutcome::External)
    );
}

#[test]
fn an_image_over_the_memory_budget_is_skipped_without_a_fail_marker() {
    let (mut plan, _) = after_lookup(image(1000), CacheLookup::RequiresUpdate(256));
    assert_eq!(
        plan.step(ThumbnailEvent::Dimensions(Some(true))),
        ThumbnailAction::Finish(ThumbnailOutcome::NotImage)
    );
}

#[test]
fn an_image_over_the_size_limit_goes_straight_to_the_external_thumbnailers() {
    let (_, next) = after_lookup(image(64 * 1_000_000 + 1), CacheLookup::Unavailable);
    assert_eq!(next, ThumbnailAction::RunExternal(256, false));

    let (_, next) = after_lookup(image(64 * 1_000_000), CacheLookup::Unavailable);
    assert_eq!(next, ThumbnailAction::ReadDimensions);
}

#[test]
fn a_failed_image_that_nothing_can_thumbnail_is_marked_again() {
    let (mut plan, next) = after_lookup(image(1000), CacheLookup::Failed);
    assert_eq!(next, ThumbnailAction::ReadDimensions);
    plan.step(ThumbnailEvent::Dimensions(Some(false)));
    assert_eq!(
        plan.step(ThumbnailEvent::Decoded(false)),
        ThumbnailAction::RunExternal(256, true)
    );
    assert_eq!(plan.step(ThumbnailEvent::External(false)), ThumbnailAction::MarkFailed);
    assert_eq!(
        plan.step(ThumbnailEvent::Marked),
        ThumbnailAction::Finish(ThumbnailOutcome::NotImage)
    );
}

#[test]
fn a_recorded_failure_for_a_file_that_is_not_an_image_stands() {
    let (_, next) = after_lookup(other(true), CacheLookup::Failed);
    assert_eq!(next, ThumbnailAction::Finish(ThumbnailOutcome::NotImage));
}

#[test]
fn an_svg_is_read_whole_when_nothing_else_gives_a_thumbnail() {
    let (mut plan, _) = after_lookup(svg(5000), CacheLookup::RequiresUpdate(256));
    plan.step(ThumbnailEvent::Dimensions(None));
    plan.step(ThumbnailEvent::Decoded(false));
    assert_eq!(plan.step(ThumbnailEvent::External(false)), ThumbnailAction::ReadSvg);
    assert_eq!(
        plan.step(ThumbnailEvent::SvgRead(true)),
        ThumbnailAction::Finish(ThumbnailOutcome::Svg)
    );
}

#[test]
fn an_svg_that_cannot_be_read_is_marked_failed() {
    let (mut plan, _) = after_lookup(svg(5000), CacheLookup::RequiresUpdate(256));
    plan.step(ThumbnailEvent::Dimensions(None));
    plan.step(ThumbnailEvent::Decoded(false));
    plan.step(ThumbnailEvent::External(false));
    assert_eq!(plan.step(ThumbnailEvent::SvgRead(false)), ThumbnailAction::MarkFailed);
}

#[test]
fn a_text_file_previews_its_start() {
    let (mut plan, next) = after_lookup(text(1000), CacheLookup::RequiresUpdate(256));
    assert_eq!(next, ThumbnailAction::RunExternal(256, true));
    assert_eq!(plan.step(ThumbnailEvent::External(false)), ThumbnailAction::ReadText(1000));
    assert_eq!(
        plan.step(ThumbnailEvent::TextRead(true)),
        ThumbnailAction::Finish(ThumbnailOutcome::Text)
    );

    // A larger file is read only up to the cap.
    let (mut plan, _) = after_lookup(text(1_000_000), CacheLookup::Unavailable);
    assert_eq!(plan.step(ThumbnailEvent::External(false)), ThumbnailAction::ReadText(262144));
    // Nothing to show, and no cache to record that in.
    assert_eq!(
        plan.step(ThumbnailEvent::TextRead(false)),
        ThumbnailAction::Finish(ThumbnailOutcome::NotImage)
    );
}

#[test]
fn an_empty_text_file_is_not_read_but_counts_as_tried() {
    let (mut plan, _) = after_lookup(text(0), CacheLookup::RequiresUpdate(256));
    assert_eq!(plan.step(ThumbnailEvent::External(false)), ThumbnailAction::MarkFailed);
}

#[test]
fn a_text_file_over_its_limit_gets_no_preview() {
    let (mut plan, _) = after_lookup(text(8_000_001), CacheLookup::RequiresUpdate(256));
    assert_eq!(
        plan.step(ThumbnailEvent::External(false)),
        ThumbnailAction::Finish(ThumbnailOutcome::NotImage)
    );
}

#[test]
fn a_file_nothing_supports_gets_no_fail_marker() {
    let (mut plan, next) = after_lookup(other(false), CacheLookup::RequiresUpdate(256));
    assert_eq!(next, ThumbnailAction::RunExternal(256, true));
    assert_eq!(
        plan.step(ThumbnailEvent::External(false)),
        ThumbnailAction::Finish(ThumbnailOutcome::NotImage)
    );

    // A type an external thumbnailer handles was tried, though.
    let (mut plan, _) = after_lookup(other(true), CacheLookup::RequiresUpdate(256));
    assert_eq!(plan.step(ThumbnailEvent::External(false)), ThumbnailAction::MarkFailed);
}

#[test]
fn without_a_cache_an_external_thumbnail_is_used_directly() {
    let (mut plan, next) = after_lookup(other(true), CacheLookup::Unavailable);
    assert_eq!(next, ThumbnailAction::RunExternal(256, false));
    assert_eq!(
        plan.step(ThumbnailEvent::External(true)),
        ThumbnailAction::Finish(ThumbnailOutcome::External)
    );
}

#[test]
fn an_event_the_plan_is_not_waiting_for_changes_nothing() {
    let (mut plan, next) = after_lookup(image(1000), CacheLookup::RequiresUpdate(256));
    assert_eq!(next, ThumbnailAction::ReadDimensions);
    assert_eq!(plan.step(ThumbnailEvent::Marked), ThumbnailAction::ReadDimensions);
    assert_eq!(plan.action(), ThumbnailAction::ReadDimensions);

    let (mut done, _) = after_lookup(image(1000), CacheLookup::Valid);
    assert_eq!(
        done.step(ThumbnailEvent::Decoded(true)),
        ThumbnailAction::Finish(ThumbnailOutcome::Cached)
    );
}

fn shown(can_thumbnail: bool) -> BackgroundItem {
    BackgroundItem {
        visible: true,
        has_path: true,
        uncounted_dir: false,
        has_thumbnail: false,
        can_thumbnail,
    }
}

#[test]
fn only_directories_on_screen_are_counted() {
    let items = [
        BackgroundItem { uncounted_dir: true, ..shown(false) },
        BackgroundItem { uncounted_dir: true, visible: false, ..shown(false) },
        BackgroundItem { uncounted_dir: true, has_path: false, ..shown(false) },
        shown(true),
        BackgroundItem { uncounted_dir: true, ..shown(false) },
    ];
    assert_eq!(count_jobs_for(&items), vec![0, 4]);
}

#[test]
fn thumbnails_start_for_items_on_screen_until_the_jobs_are_full() {
    let items = [
        BackgroundItem { has_thumbnail: true, ..shown(true) },
        shown(true),
        BackgroundItem { visible: false, ..shown(true) },
        shown(false),
        shown(true),
        shown(true),
    ];
    assert_eq!(thumbnail_jobs_for(&items, 0, 8), vec![1, 4, 5]);
    assert_eq!(thumbnail_jobs_for(&items, 0, 2), vec![1, 4]);
    // With the jobs already full, the first item on screen still gets its
    // thumbnail started, and then the looking stops.
    assert_eq!(thumbnail_jobs_for(&items, 5, 2), vec![1]);
}
