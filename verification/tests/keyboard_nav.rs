use earth_files::keyboard_nav::{action_for, Action, Key};

#[test]
fn tab_moves_the_focus_both_ways_but_not_with_ctrl() {
    assert_eq!(action_for(&Key::Tab, false, false, true), Some(Action::FocusNext));
    assert_eq!(action_for(&Key::Tab, false, true, true), Some(Action::FocusPrevious));
    assert_eq!(action_for(&Key::Tab, true, false, true), None);
}

#[test]
fn escape_f11_and_ctrl_f_are_shortcuts() {
    assert_eq!(action_for(&Key::Escape, false, false, true), Some(Action::Escape));
    assert_eq!(action_for(&Key::F11, true, true, true), Some(Action::Fullscreen));
    assert_eq!(action_for(&Key::Character(String::from("f")), true, false, true), Some(Action::Search));
    assert_eq!(action_for(&Key::Character(String::from("f")), false, false, true), None);
    assert_eq!(action_for(&Key::Character(String::from("g")), true, false, true), None);
    assert_eq!(action_for(&Key::OtherNamed, true, false, true), None);
}

#[test]
fn a_key_a_widget_took_is_no_shortcut() {
    assert_eq!(action_for(&Key::Escape, false, false, false), None);
}
