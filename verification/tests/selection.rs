use earth_files::selection::{ClickTrack, GridItem, MiddleOpen, OpenItem, Selection};

fn item(name: &str, row: usize, col: usize) -> GridItem {
    GridItem {
        name: name.to_string(),
        hidden: name.starts_with('.'),
        pos: Some((row, col)),
        path: Some(format!("/d/{name}")),
        is_dir: false,
    }
}

/// A grid of two rows of three.
fn grid() -> Selection {
    Selection::new(vec![
        item("alpha", 0, 0),
        item("beta", 0, 1),
        item(".hidden", 0, 2),
        item("Bravo", 1, 0),
        item("charlie", 1, 1),
        item("bb", 1, 2),
    ])
}

fn selected(s: &Selection) -> Vec<usize> {
    (0..s.len()).filter(|&i| s.is_selected(i)).collect()
}

#[test]
fn select_all_leaves_hidden_items_out_unless_shown() {
    let mut s = grid();
    s.select_all(false);
    assert_eq!(selected(&s), vec![0, 1, 3, 4, 5]);
    s.select_all(true);
    assert_eq!(selected(&s), vec![0, 1, 2, 3, 4, 5]);
    assert!(s.select_none());
    assert!(selected(&s).is_empty());
    assert!(!s.select_none());
}

#[test]
fn select_name_and_paths_focus_the_last_match() {
    let mut s = grid();
    s.select_name("charlie");
    assert_eq!(selected(&s), vec![4]);
    assert_eq!(s.select_focus(), Some(4));
    s.select_paths(&[String::from("/d/alpha"), String::from("/d/bb")]);
    assert_eq!(selected(&s), vec![0, 5]);
    assert_eq!(s.select_focus(), Some(5));
}

#[test]
fn clicking_selects_one_item_and_shift_extends_the_span() {
    let mut s = grid();
    assert!(s.select_position(0, 1, false));
    assert_eq!(selected(&s), vec![1]);
    assert_eq!(s.select_focus(), Some(1));
    assert!(s.select_position(1, 1, true));
    assert_eq!(selected(&s), vec![1, 2, 3, 4]);
    assert_eq!(s.select_focus(), Some(4));
    // Nothing laid out there: the focus stays.
    assert!(!s.select_position(5, 5, false));
    assert_eq!(s.select_focus(), Some(4));
}

#[test]
fn the_arrow_keys_move_through_the_grid() {
    let mut s = grid();
    s.select_position(0, 0, false);
    s.item_right(false, None);
    assert_eq!(s.select_focus(), Some(1));
    s.item_down(false, None);
    assert_eq!(s.select_focus(), Some(4));
    s.item_left(false, None);
    assert_eq!(s.select_focus(), Some(3));
    s.item_up(false, None);
    assert_eq!(s.select_focus(), Some(0));
    assert_eq!(selected(&s), vec![0]);
}

#[test]
fn typing_selects_by_prefix_ignoring_case() {
    let mut s = grid();
    assert!(s.select_by_prefix("CH", true));
    assert_eq!(selected(&s), vec![4]);
    assert_eq!(s.select_focus(), Some(4));
    assert!(!s.select_by_prefix("zzz", true));
    assert!(selected(&s).is_empty());
    assert_eq!(s.select_focus(), None);
}

#[test]
fn repeating_a_character_cycles_through_its_items() {
    let mut s = grid();
    assert!(s.select_by_prefix("b", true));
    assert_eq!(s.select_focus(), Some(1));
    assert!(s.select_by_prefix("b", true));
    assert_eq!(s.select_focus(), Some(3));
    // "bb" matches the item named so, after the focus.
    assert!(s.select_by_prefix("bb", true));
    assert_eq!(s.select_focus(), Some(5));
    // "bbb" matches nothing, so it cycles on "b" from past the focus.
    assert!(s.select_by_prefix("bbb", true));
    assert_eq!(s.select_focus(), Some(1));
}

#[test]
fn a_matching_name_is_found_wherever_the_focus_is() {
    let mut s = grid();
    assert!(s.select_by_prefix("CH", true));
    assert_eq!(s.select_focus(), Some(4));
    // The only item starting with "al" lies before the focus: the search wraps.
    assert!(s.select_by_prefix("AL", true));
    assert_eq!(s.select_focus(), Some(0));
    assert_eq!(selected(&s), vec![0]);
}

#[test]
fn a_descending_listing_searches_backwards() {
    let mut s = grid();
    assert!(s.select_by_prefix("b", false));
    assert_eq!(s.select_focus(), Some(5));
    assert!(s.select_by_prefix("b", false));
    assert_eq!(s.select_focus(), Some(3));
}

#[test]
fn a_drag_carries_the_selection_or_the_item_it_started_on() {
    let mut s = grid();
    assert_eq!(s.drag_paths(4), vec![String::from("/d/charlie")]);
    s.select_name("beta");
    assert_eq!(s.drag_paths(4), vec![String::from("/d/beta")]);
    assert!(s.select_none());
    assert!(s.drag_paths(99).is_empty());
}

#[test]
fn a_rubber_band_selects_what_it_covers() {
    let mut s = grid();
    let none = vec![false; 6];
    let first_two = vec![true, true, false, false, false, false];
    s.select_rect(&none, &first_two, false);
    assert_eq!(selected(&s), vec![0, 1]);
    // With a modifier, only items the band starts or stops covering flip.
    let two_three = vec![false, true, true, false, false, false];
    s.select_rect(&first_two, &two_three, true);
    assert_eq!(selected(&s), vec![1, 2]);
}

#[test]
fn cut_items_are_remembered_by_path() {
    let mut s = grid();
    s.select_name("beta");
    s.cut_selected();
    assert!(s.is_cut(1));
    s.refresh_cut(&[String::from("/d/bb")]);
    assert!(!s.is_cut(1));
    assert!(s.is_cut(5));
}

#[test]
fn a_fresh_listing_keeps_the_selection_by_path_and_the_highlight_by_position() {
    let mut s = grid();
    s.select_paths(&[String::from("/d/beta"), String::from("/d/bb")]);
    s.highlight_drop_target(Some(1));
    s.cut_selected();
    s.set_items(vec![item("bb", 0, 0), item("new", 0, 1), item("beta", 0, 2)]);
    assert_eq!(s.len(), 3);
    assert_eq!(selected(&s), vec![0, 2]);
    assert!(s.is_highlighted(1));
    assert!(!s.is_highlighted(0) && !s.is_highlighted(2));
    assert!((0..3).all(|i| !s.is_cut(i)));
}

/// A listing of directories shown in their own order, clicked at `clicks`
/// with the modifiers given; compares the selection of the first items.
fn tab_selects_item(clicks: &[usize], ctrl: bool, shift: bool, expected_selected: &[bool]) {
    let mut s = Selection::new((0..4).map(|i| GridItem { is_dir: true, ..item(&format!("dir{i}"), 0, i) }).collect());
    let order: Vec<usize> = (0..s.len()).collect();
    let mut clicked = None;
    for &click in clicks {
        clicked = s.click(Some(click), ctrl, shift, &order, false, None, clicked);
    }
    for (i, &expected) in expected_selected.iter().enumerate() {
        assert_eq!(expected, s.is_selected(i), "index {i}");
    }
}

#[test]
fn tab_click_single_selects_item() {
    // Select the second directory with no keys held down
    tab_selects_item(&[1], false, false, &[false, true]);
}

#[test]
fn tab_click_ctrl_selects_multiple() {
    // Select the first and second directory by holding down ctrl
    tab_selects_item(&[0, 1], true, false, &[true, true]);
}

#[test]
fn a_plain_click_replaces_the_selection() {
    tab_selects_item(&[0, 2], false, false, &[false, false, true, false]);
}

#[test]
fn shift_click_selects_the_range_in_display_order() {
    let mut s = grid();
    // Shown sorted as 3, 0, 5, 1, 4 (2 is hidden).
    let order = vec![3, 0, 5, 1, 2, 4];
    s.click(Some(0), false, false, &order, false, None, None);
    s.click(Some(1), false, true, &order, false, None, Some(0));
    assert_eq!(selected(&s), vec![0, 1, 5]);
    assert_eq!(s.select_focus(), Some(1));
    // Hidden items count when they are shown.
    s.click(Some(4), false, true, &order, true, None, Some(1));
    assert_eq!(selected(&s), vec![0, 1, 2, 4, 5]);
    // Shift with ctrl adds to what was selected.
    s.click(Some(3), false, false, &order, false, None, None);
    s.click(Some(0), true, true, &order, false, None, None);
    assert_eq!(selected(&s), vec![0, 3]);
}

#[test]
fn clicking_the_background_deselects_everything() {
    let mut s = grid();
    s.select_all(false);
    let order: Vec<usize> = (0..s.len()).collect();
    assert_eq!(s.click(None, false, false, &order, false, None, Some(3)), None);
    assert!(selected(&s).is_empty());
}

#[test]
fn a_click_remembers_the_item_for_a_double_click() {
    let mut s = grid();
    let order: Vec<usize> = (0..s.len()).collect();
    let clicked = s.click(Some(1), false, false, &order, false, None, None);
    assert_eq!(clicked, Some(1));
    // Clicking it again changes nothing, and the remembered item stays.
    assert_eq!(s.click(Some(1), false, false, &order, false, None, Some(7)), Some(7));
}

#[test]
fn a_folder_dialog_does_not_select_files() {
    let mut s = Selection::new(vec![
        GridItem { is_dir: true, ..item("d", 0, 0) },
        item("f", 0, 1),
    ]);
    let order = vec![0, 1];
    s.click(Some(0), false, false, &order, false, Some(true), None);
    assert_eq!(selected(&s), vec![0]);
    // The file stays unselected, and the click still clears the folder.
    s.click(Some(1), false, false, &order, false, Some(true), None);
    assert!(selected(&s).is_empty());
    // In a dialog for files, clicking a folder replaces the selection.
    let mut s = Selection::new(vec![
        GridItem { is_dir: true, ..item("d", 0, 0) },
        item("f", 0, 1),
    ]);
    s.click(Some(1), false, false, &order, false, Some(false), None);
    s.click(Some(0), true, false, &order, false, Some(false), None);
    assert_eq!(selected(&s), vec![0]);
}

#[test]
fn a_click_sequence_opens_an_item_exactly_once() {
    let opens = |single_click: bool| -> usize {
        let mut s = Selection::new(vec![GridItem { is_dir: true, ..item("sub", 0, 0) }, item("a.txt", 0, 1)]);
        let order = vec![0, 1];
        let file = 1;
        let mut track = ClickTrack { clicked: None, opened_by_this_click: false };
        let mut opened = 0;
        // Click, release, double click, release.
        track.clicked = s.click(Some(file), false, false, &order, false, None, track.clicked);
        for action in [
            s.click_release(&mut track, Some(file), false, single_click),
            s.double_click(&mut track, Some(file), single_click),
            s.click_release(&mut track, Some(file), false, single_click),
        ] {
            if action == OpenItem::Open(file) {
                opened += 1;
            }
        }
        opened
    };
    assert_eq!(opens(true), 1, "single click opens on the first release only");
    assert_eq!(opens(false), 1, "double click opens once");
}

#[test]
fn tab_click_double_opens_folder() {
    let s = Selection::new(vec![
        GridItem { is_dir: true, ..item("first", 0, 0) },
        GridItem { is_dir: true, ..item("second", 0, 1) },
    ]);
    let mut track = ClickTrack { clicked: None, opened_by_this_click: false };
    assert_eq!(s.double_click(&mut track, Some(1), false), OpenItem::Enter(1));
    assert!(track.opened_by_this_click);
}

#[test]
fn a_control_release_deselects_an_item_it_did_not_just_select() {
    let mut s = grid();
    let order: Vec<usize> = (0..s.len()).collect();
    s.click(Some(0), false, false, &order, false, None, None);
    s.click(Some(1), true, false, &order, false, None, None);
    let mut track = ClickTrack { clicked: Some(1), opened_by_this_click: false };
    // Released over the item the click just selected: it stays.
    assert_eq!(s.click_release(&mut track, Some(1), true, true), OpenItem::Nothing);
    assert_eq!(selected(&s), vec![0, 1]);
    // A control click on an item already selected, then its release: it goes.
    s.click(Some(0), true, false, &order, false, None, None);
    let mut track = ClickTrack { clicked: None, opened_by_this_click: false };
    s.click_release(&mut track, Some(0), true, true);
    assert_eq!(selected(&s), vec![1]);
}

#[test]
fn selected_names_follow_the_display_order() {
    let mut s = grid();
    s.select_paths(&[String::from("/d/alpha"), String::from("/d/charlie"), String::from("/d/bb")]);
    assert_eq!(s.selected_names(&[5, 4, 3, 2, 1, 0]), vec!["bb", "charlie", "alpha"]);
    assert_eq!(s.selected_names(&[0, 1]), vec!["alpha"]);
}

#[test]
fn a_drop_goes_into_the_first_directory_under_the_pointer() {
    let s = Selection::new(vec![
        item("file", 0, 0),
        GridItem { is_dir: true, path: None, ..item("nopath", 0, 1) },
        GridItem { is_dir: true, ..item("dir", 0, 2) },
        GridItem { is_dir: true, ..item("dir2", 0, 3) },
    ]);
    assert_eq!(s.drop_target(&[true, true, true, true]), Some(2));
    assert_eq!(s.drop_target(&[true, true, false, true]), Some(3));
    assert_eq!(s.drop_target(&[true, true, false, false]), None);
}

#[test]
fn the_gallery_steps_to_the_next_showable_item_in_sort_order() {
    let mut s = grid();
    // Sorted order: charlie, alpha, bb, beta, Bravo, .hidden; beta and
    // .hidden cannot be shown.
    let order = [4, 0, 5, 1, 3, 2];
    let can = [true, false, false, true, true, true];

    // Nothing focused: the first showable item.
    assert!(s.gallery_step(&order, &can, false, false));
    assert_eq!(s.select_focus(), Some(4));
    assert!(s.gallery_step(&order, &can, false, false));
    assert_eq!(s.select_focus(), Some(0));
    // beta is passed over.
    assert!(s.gallery_step(&order, &can, false, false));
    assert_eq!(s.select_focus(), Some(5));
    assert!(s.gallery_step(&order, &can, false, false));
    assert_eq!(s.select_focus(), Some(3));
    assert_eq!(selected(&s), vec![3]);
    // Nothing showable after Bravo: nothing changes.
    assert!(!s.gallery_step(&order, &can, false, false));
    assert_eq!(s.select_focus(), Some(3));

    // And back.
    assert!(s.gallery_step(&order, &can, true, false));
    assert_eq!(s.select_focus(), Some(5));
}

#[test]
fn the_gallery_skips_items_that_were_not_laid_out() {
    let mut items = vec![item("a", 0, 0), item("b", 0, 1), item("c", 0, 2)];
    items[1].pos = None;
    let mut s = Selection::new(items);
    let order = [0, 1, 2];
    let can = [true, true, true];
    assert!(s.gallery_step(&order, &can, false, false));
    assert!(s.gallery_step(&order, &can, false, false));
    assert_eq!(s.select_focus(), Some(2));
}

/// A folder, a file, another folder and a folder without a path.
fn mixed() -> Selection {
    Selection::new(vec![
        GridItem { is_dir: true, ..item("docs", 0, 0) },
        item("a.txt", 0, 1),
        GridItem { is_dir: true, ..item("music", 0, 2) },
        GridItem { is_dir: true, path: None, ..item("server", 1, 0) },
    ])
}

#[test]
fn opening_one_selected_folder_goes_into_it() {
    let mut s = mixed();
    s.select_position(0, 0, false);
    let plan = s.open_selected(&[true; 4], true);
    assert_eq!(plan.cd, Some(0));
    assert!(plan.files.is_empty());
    assert!(plan.new_tabs.is_empty());

    // Even a folder without a path: its location is gone to.
    s.select_position(1, 0, false);
    assert_eq!(s.open_selected(&[true; 4], true).cd, Some(3));
}

#[test]
fn opening_several_opens_the_files_and_the_folders_in_new_tabs() {
    let mut s = mixed();
    s.select_all(true);
    let plan = s.open_selected(&[true; 4], true);
    assert_eq!(plan.files, vec![1]);
    // The folder without a path has nothing to open a tab on.
    assert_eq!(plan.new_tabs, vec![0, 2]);
    assert_eq!(plan.cd, None);

    // A dialog leaves the folders alone, and items without a location too.
    let plan = s.open_selected(&[true, false, true, true], false);
    assert!(plan.files.is_empty());
    assert!(plan.new_tabs.is_empty());
    assert_eq!(plan.cd, None);
}

#[test]
fn a_right_click_keeps_a_selection_it_lands_in() {
    let mut s = grid();
    s.select_position(0, 0, false);
    s.select_position(0, 1, true);
    assert_eq!(selected(&s), vec![0, 1]);
    s.right_click_select(Some(1));
    assert_eq!(selected(&s), vec![0, 1]);
    // Elsewhere, it selects what it hit alone, or nothing.
    s.right_click_select(Some(4));
    assert_eq!(selected(&s), vec![4]);
    s.right_click_select(None);
    assert!(selected(&s).is_empty());
}

#[test]
fn a_middle_click_opens_folders_in_a_new_tab_and_files_directly() {
    let mut s = mixed();
    assert_eq!(s.middle_click(2), MiddleOpen::NewTab(2));
    assert_eq!(selected(&s), vec![2]);
    assert_eq!(s.middle_click(1), MiddleOpen::File(1));
    assert_eq!(selected(&s), vec![1]);
    assert_eq!(s.middle_click(3), MiddleOpen::Nothing);
    assert_eq!(s.middle_click(9), MiddleOpen::Nothing);
    assert!(selected(&s).is_empty());
}

#[test]
fn a_right_click_on_the_background_clears_the_selection_unless_an_item_took_it() {
    let mut s = grid();
    s.select_position(0, 0, false);
    s.right_click_background(Some(0));
    assert_eq!(selected(&s), vec![0]);
    s.right_click_background(None);
    assert!(selected(&s).is_empty());
    assert_eq!(s.select_focus(), Some(0));
}

#[test]
fn the_first_and_last_selected_positions_go_row_first() {
    let mut s = grid();
    assert_eq!(s.select_first_pos_opt(), None);
    s.select_position(0, 1, false);
    s.select_position(1, 1, true);
    assert_eq!(s.select_first_pos_opt(), Some((0, 1)));
    assert_eq!(s.select_last_pos_opt(), Some((1, 1)));
}

#[test]
fn a_page_down_goes_down_as_many_rows_and_a_page_up_back() {
    let mut s = grid();
    // Nothing focused: the first item.
    s.item_page_down(false, 1);
    assert_eq!(s.select_focus(), Some(0));
    s.item_page_down(false, 1);
    assert_eq!(s.select_focus(), Some(3));
    s.item_page_up(false, 5);
    assert_eq!(s.select_focus(), Some(0));
}
