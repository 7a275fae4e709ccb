use earth_files::dnd::{
    accepted_mime, is_file_mime, preferred_mime, BoundedRead, Drag, DragState, Placeholder,
    ReadEvent, ReadStep, FILE_MIMES, READ_LIMIT,
};

fn strings(v: &[&str]) -> Vec<String> {
    v.iter().map(|s| s.to_string()).collect()
}

#[test]
fn the_placeholder_serves_only_its_own_mime() {
    let placeholder = Placeholder(String::from("x-earth-files/tab-drag"));
    assert_eq!(
        placeholder.available(),
        vec!["x-earth-files/tab-drag".to_string()]
    );
    assert!(placeholder.as_bytes("x-earth-files/tab-drag").is_some());
    assert!(placeholder.as_bytes("text/uri-list").is_none());
    // No file list, so a drag carrying it must not be mistaken for one and
    // routed into the file view's drop handling.
    assert!(!placeholder.available().iter().any(|mime| is_file_mime(mime)));
}

#[test]
fn the_file_mime_types_are_the_clipboards_own() {
    assert_eq!(
        FILE_MIMES.as_slice(),
        ["x-special/gnome-copied-files", "text/uri-list"].as_slice()
    );
    assert!(FILE_MIMES.iter().all(|mime| is_file_mime(mime)));
    assert!(!is_file_mime("text/plain"));
}

#[test]
fn a_new_drag_is_live_and_never_repeats_a_generation() {
    let mut shared: DragState<(f32, f32)> = DragState::new();
    assert!(!shared.drag_is_live());

    shared.begin_drag(true);
    assert!(shared.drag_is_live());
    assert!(shared.drag.unwrap().files);

    shared.motion((1.0, 2.0));
    shared.drag.as_mut().unwrap().ended = true;
    let ended = shared.drag.unwrap();
    assert!(
        !shared.drag_is_live(),
        "an ended drag must not block the drag that replaces it"
    );

    shared.begin_drag(false);
    let started = shared.drag.unwrap();
    assert!(shared.drag_is_live());
    assert!(!started.files);
    assert_ne!(
        started.generation, ended.generation,
        "a watcher keyed on the generation would miss this drag entirely"
    );
}

#[test]
fn generation_advances_on_every_change() {
    let mut shared = DragState {
        drag: Some(Drag::default()),
        ..DragState::new()
    };
    shared.motion((1.0, 2.0));
    shared.motion((1.0, 2.0));
    let drag = shared.drag.unwrap();
    assert_eq!(drag.generation, 2);
    assert_eq!(drag.position, Some((1.0, 2.0)));
}

#[test]
fn end_drag_forgets_the_button_state() {
    let mut shared: DragState<(f32, f32)> = DragState::new();
    shared.button_pressed = true;
    shared.end_drag();
    assert!(!shared.button_pressed);
}

#[test]
fn a_foreign_drag_ends_when_it_leaves_but_our_own_does_not() {
    let mut foreign: DragState<(i32, i32)> = DragState::new();
    foreign.enter(true, (3, 4));
    assert_eq!(foreign.drag.unwrap().position, Some((3, 4)));
    assert!(foreign.leave());
    assert!(!foreign.drag_is_live());

    let mut own: DragState<(i32, i32)> = DragState::new();
    own.started_drag(strings(&["text/uri-list"]));
    assert!(own.drag.unwrap().files);
    own.enter(true, (1, 1));
    assert!(!own.leave());
    assert!(own.drag_is_live());
    assert_eq!(own.drag.unwrap().position, None);
    own.dropped();
    let d = own.drag.unwrap();
    assert!(d.dropped && d.ended);
}

#[test]
fn a_drop_keeps_the_position_it_happened_at() {
    let mut s: DragState<(i32, i32)> = DragState::new();
    s.enter(false, (7, 8));
    s.dropped();
    // The leave that follows every drop must not lose the coordinates.
    assert!(s.leave());
    assert_eq!(s.drag.unwrap().position, Some((7, 8)));
}

#[test]
fn a_file_list_is_accepted_before_anything_else() {
    let offered = strings(&["text/plain", "text/uri-list", "x-special/gnome-copied-files"]);
    let (mime, files) = accepted_mime(&offered, &Vec::new());
    assert_eq!(mime.as_deref(), Some("x-special/gnome-copied-files"));
    assert!(files);

    let offered = strings(&["x-earth-files/tab-drag"]);
    let own = strings(&["x-earth-files/tab-drag"]);
    assert_eq!(accepted_mime(&offered, &own), (Some(String::from("x-earth-files/tab-drag")), false));
    assert_eq!(accepted_mime(&strings(&["text/plain"]), &own), (None, false));
}

#[test]
fn the_most_preferred_offered_type_is_read() {
    let allowed = strings(&["text/uri-list", "text/plain"]);
    assert_eq!(
        preferred_mime(&allowed, &strings(&["text/plain", "text/uri-list"])).as_deref(),
        Some("text/uri-list")
    );
    assert_eq!(preferred_mime(&allowed, &strings(&["image/png"])), None);
}

#[test]
fn a_bounded_read_collects_chunks_until_the_end() {
    let mut r = BoundedRead::new();
    assert_eq!(r.step(ReadEvent::PollIdle), ReadStep::Poll);
    assert_eq!(r.step(ReadEvent::Chunk(b"ab".to_vec())), ReadStep::Poll);
    assert_eq!(r.step(ReadEvent::PollFailed { interrupted: true }), ReadStep::Poll);
    assert_eq!(r.step(ReadEvent::ReadFailed { retry: true }), ReadStep::Poll);
    assert_eq!(r.step(ReadEvent::Chunk(b"cd".to_vec())), ReadStep::Poll);
    assert_eq!(r.step(ReadEvent::Eof), ReadStep::Done);
    assert_eq!(r.into_bytes(), b"abcd".to_vec());
}

#[test]
fn a_source_that_never_writes_times_out_rather_than_hanging() {
    let mut r = BoundedRead::new();
    assert_eq!(r.step(ReadEvent::PollIdle), ReadStep::Poll);
    assert_eq!(r.step(ReadEvent::DeadlinePassed), ReadStep::TimedOut);
}

#[test]
fn a_failed_read_or_an_oversized_payload_stops_the_read() {
    let mut r = BoundedRead::new();
    assert_eq!(r.step(ReadEvent::ReadFailed { retry: false }), ReadStep::Failed);
    let mut r = BoundedRead::new();
    assert_eq!(r.step(ReadEvent::PollFailed { interrupted: false }), ReadStep::Failed);
    let mut r = BoundedRead::new();
    assert_eq!(r.step(ReadEvent::Chunk(vec![0u8; READ_LIMIT])), ReadStep::Poll);
    assert_eq!(r.step(ReadEvent::Chunk(vec![1u8])), ReadStep::TooLarge);
}

#[test]
fn a_drag_may_start_only_with_something_to_offer_and_none_live() {
    let mut shared: DragState<(i32, i32)> = DragState::new();
    assert!(!shared.may_start_drag(&Vec::new()));
    assert!(shared.may_start_drag(&strings(&["text/uri-list"])));
    shared.started_drag(strings(&["text/uri-list"]));
    assert!(!shared.may_start_drag(&strings(&["text/uri-list"])));
    // Cancelled by the compositor: it ends, and another may start.
    shared.source_finished();
    assert!(shared.drag.unwrap().ended);
    assert!(!shared.drag_is_live());
    assert!(shared.may_start_drag(&strings(&["text/uri-list"])));
    shared.set_button_pressed(true);
    assert!(shared.button_pressed);
}
