use earth_files::popup::{Dismissals, OpenedSurfaces, PopupGenies, MAX_UNCLAIMED};
use earth_files::shell::Corner;

#[test]
fn a_popup_that_did_not_ask_for_it_gets_no_animation() {
    let mut genies = PopupGenies::new();
    let plain = 1;

    assert!(genies.get(plain).is_none());
    // Nothing to wait for, so its teardown goes through immediately.
    assert!(!genies.begin_exit(plain));
}

#[test]
fn an_animated_popup_defers_its_teardown_once() {
    let mut genies = PopupGenies::new();
    let menu = 1;
    genies.insert(menu, Corner::TopLeft);

    assert!(genies.get(menu).is_some());
    // The first teardown is withheld and starts the collapse...
    assert!(genies.begin_exit(menu));
    assert!(genies.get(menu).is_some_and(|entry| entry.exiting));
    // ...and a second one must not withhold a second removal, or the
    // surface would never be torn down.
    assert!(!genies.begin_exit(menu));
}

#[test]
fn forgetting_a_popup_is_harmless_twice() {
    let mut genies = PopupGenies::new();
    let menu = 1;
    genies.insert(menu, Corner::TopLeft);

    genies.remove(menu);
    assert!(genies.get(menu).is_none());
    genies.remove(menu);
    assert!(genies.get(menu).is_none());
}

#[test]
fn popups_do_not_share_animation_state() {
    let mut genies = PopupGenies::new();
    let first = 1;
    let second = 2;
    genies.insert(first, Corner::TopLeft);
    genies.insert(second, Corner::BottomRight);

    assert!(genies.begin_exit(first));

    let second_entry = genies.get(second).expect("still open");
    assert!(!second_entry.exiting, "one exit took another popup with it");
    assert_eq!(second_entry.anchor, Corner::BottomRight);
}

#[test]
fn a_popup_opened_again_animates_afresh() {
    let mut genies = PopupGenies::new();
    genies.insert(7, Corner::TopRight);
    assert!(genies.begin_exit(7));
    genies.insert(7, Corner::BottomLeft);
    let entry = genies.get(7).expect("open again");
    assert!(!entry.exiting);
    assert_eq!(entry.anchor, Corner::BottomLeft);
    assert!(genies.begin_exit(7));
}

#[test]
fn a_dismissed_popup_is_claimed_once() {
    let mut dismissed = Dismissals::new();
    dismissed.note(5);
    // Noting it twice still makes one dismissal.
    dismissed.note(5);
    assert!(!dismissed.claim(6));
    assert!(dismissed.claim(5));
    assert!(!dismissed.claim(5));
}

#[test]
fn unclaimed_dismissals_are_bounded_and_the_oldest_goes_first() {
    let mut dismissed = Dismissals::new();
    let max = u64::try_from(MAX_UNCLAIMED).expect("small");
    for id in 0..max {
        dismissed.note(id);
    }
    // Full: the next note pushes out the oldest.
    dismissed.note(max);
    assert!(!dismissed.claim(0));
    assert!(dismissed.claim(1));
    assert!(dismissed.claim(max));
}

#[test]
fn an_unanimated_teardown_is_never_withheld() {
    let mut genies = PopupGenies::new();
    genies.insert(3, Corner::TopLeft);
    assert!(!genies.destroy(3, false));
    assert!(!genies.get(3).expect("still held").exiting);
    assert!(genies.destroy(3, true));
    assert!(!genies.destroy(3, true));
}

#[test]
fn a_reused_id_keeps_its_view_until_its_last_surface_closes() {
    let mut surfaces = OpenedSurfaces::new();
    surfaces.opened(9);
    surfaces.opened(9);
    assert_eq!(surfaces.count(9), 2);
    assert!(!surfaces.closed(9));
    assert_eq!(surfaces.count(9), 1);
    assert!(surfaces.closed(9));
    assert_eq!(surfaces.count(9), 0);
    // A late close for an id with nothing open changes nothing.
    assert!(!surfaces.closed(9));
}
