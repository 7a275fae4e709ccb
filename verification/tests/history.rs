use earth_files::history::History;
use earth_files::location::{Location, PathFacts};

fn probe(p: &str) -> PathFacts {
    PathFacts { canonical: Some(p.to_string()), is_dir: true }
}

fn path(p: &str) -> Location {
    Location::Path(p.to_string())
}

/// A history that visited `/r`, `/r/a`, `/r/a/b` and `/r/a/b/c` in turn.
fn visited() -> History<u32> {
    let mut h = History::new(path("/r/"), path("/r"));
    for p in ["/r/a", "/r/a/b", "/r/a/b/c"] {
        h.change_location(&path(p), None, probe);
    }
    h
}

#[test]
fn tab_goprev_moves_backward_in_history() {
    let mut h = visited();
    for expected in ["/r/a/b/c/", "/r/a/b/", "/r/a/", "/r/"] {
        assert_eq!(h.location(), &path(expected));
        if let Some((loc, i)) = h.go_previous() {
            h.change_location(&loc, Some(i), probe);
        }
    }
    assert_eq!(h.location(), &path("/r/"));
}

#[test]
fn tab_gonext_moves_forward_in_history() {
    let mut h = visited();
    while let Some((loc, i)) = h.go_previous() {
        h.change_location(&loc, Some(i), probe);
    }
    assert_eq!(h.location(), &path("/r/"));
    for expected in ["/r/a/", "/r/a/b/", "/r/a/b/c/"] {
        let (loc, i) = h.go_next().expect("a later entry");
        h.change_location(&loc, Some(i), probe);
        assert_eq!(h.location(), &path(expected));
    }
    assert!(h.go_next().is_none());
}

#[test]
fn tab_empty_history_does_nothing_on_prev_next() {
    let h: History<u32> = History::new(path("/r/"), path("/r"));
    assert!(h.go_previous().is_none());
    assert!(h.go_next().is_none());
    assert_eq!(h.location(), &path("/r/"));
}

#[test]
fn a_new_visit_drops_what_was_ahead() {
    let mut h = visited();
    let (loc, i) = h.go_previous().unwrap();
    h.change_location(&loc, Some(i), probe);
    let (loc, i) = h.go_previous().unwrap();
    h.change_location(&loc, Some(i), probe);
    h.change_location(&path("/elsewhere"), None, probe);
    assert!(h.go_next().is_none());
    assert_eq!(h.len(), 3);
    assert_eq!(h.go_previous().map(|(l, _)| l), Some(path("/r/a")));
}

#[test]
fn a_visit_to_the_same_place_replaces_the_current_entry() {
    let mut h: History<u32> = History::new(path("/r/"), path("/r"));
    h.change_location(&path("/r/"), None, probe);
    assert_eq!(h.len(), 1);
}

#[test]
fn the_scroll_offset_is_restored_on_the_way_back() {
    let mut h: History<u32> = History::new(path("/r/"), path("/r"));
    h.set_scroll(Some(42));
    h.change_location(&path("/r/a"), None, probe);
    assert_eq!(h.scroll(), None);
    let (loc, i) = h.go_previous().unwrap();
    h.change_location(&loc, Some(i), probe);
    assert_eq!(h.scroll(), Some(42));
    assert_eq!(h.take_pending_scroll(), Some(42));
    assert_eq!(h.take_pending_scroll(), None);
}

#[test]
fn going_back_moves_the_current_index_and_keeps_the_entries() {
    let mut h = visited();
    assert_eq!(h.len(), 4);
    assert_eq!(h.current_index(), 3);
    if let Some((loc, i)) = h.go_previous() {
        h.change_location(&loc, Some(i), probe);
    }
    assert_eq!(h.current_index(), 2);
    assert_eq!(h.len(), 4);
    assert_eq!(h.entry(3), Some(&path("/r/a/b/c")));
}
