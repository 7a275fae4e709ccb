use earth_files::location::{expand_tilde, push_trailing_sep, EditLocation, Location, PathFacts, SearchLocation, Title};
use earth_files::tab::LocationMenuAction;
use earth_files::uri::{read_typed, TypedUri};

#[test]
fn the_title_names_what_the_tab_shows() {
    assert!(matches!(Location::Path(String::from("/home/u")).title(), Title::Folder(p) if p == "/home/u"));
    assert!(matches!(Location::Trash.title(), Title::Trash));
    assert!(matches!(Location::Recents.title(), Title::Recents));
    assert!(matches!(
        Location::Network(String::from("smb://s/"), String::from("Share"), None).title(),
        Title::Network(n) if n == "smb://s/"
    ));
    let search = Location::Search(
        SearchLocation::Trash,
        String::from("report"),
        false,
        std::time::Instant::now(),
    );
    assert!(matches!(search.title(), Title::Search(t, SearchLocation::Trash) if t == "report"));
}

#[test]
fn a_leading_tilde_is_the_home_directory() {
    assert_eq!(expand_tilde(String::from("~/Music"), Some("/home/u")), "/home/u/Music");
    assert_eq!(expand_tilde(String::from("/opt/~x"), Some("/home/u")), "/opt/~x");
    assert_eq!(expand_tilde(String::from("~/Music"), None), "~/Music");
}

#[test]
fn trash_and_recents_are_told_apart() {
    assert!(Location::Trash.is_trash());
    assert!(!Location::Trash.is_recents());
    assert!(Location::Recents.is_recents());
    assert!(Location::Recents.supports_paste());
    assert!(!Location::Trash.supports_paste());
    assert!(!Location::Network(String::from("smb://s/"), String::from("S"), None).supports_paste());
    assert!(Location::Path(String::from("/tmp")).supports_paste());
    let in_trash = Location::Search(SearchLocation::Trash, String::from("x"), false, std::time::Instant::now());
    assert!(!in_trash.supports_paste());
    let in_dir = Location::Search(SearchLocation::Path(String::from("/tmp")), String::from("x"), false, std::time::Instant::now());
    assert!(in_dir.supports_paste());
}

#[test]
fn directories_normalise_with_a_trailing_separator() {
    assert_eq!(push_trailing_sep(String::from("/tmp")), "/tmp/");
    assert_eq!(push_trailing_sep(String::from("/tmp/")), "/tmp/");
    let l = Location::Path(String::from("/tmp/x/../y"));
    let n = l.normalize(|_| PathFacts { canonical: Some(String::from("/tmp/y")), is_dir: true });
    assert_eq!(n, Location::Path(String::from("/tmp/y/")));
    let f = Location::Path(String::from("/tmp/f.txt"));
    let n = f.normalize(|_| PathFacts { canonical: None, is_dir: false });
    assert_eq!(n, Location::Path(String::from("/tmp/f.txt")));
}

#[test]
fn a_paths_ancestors_run_from_it_to_the_root() {
    let a = Location::Path(String::from("/a/b")).ancestors_home(None);
    assert_eq!(a.len(), 3);
    assert_eq!(a[0], Location::Path(String::from("/a/b")));
    assert_eq!(a[2], Location::Path(String::from("/")));
}

#[test]
fn the_breadcrumbs_stop_at_the_home_directory() {
    let a = Location::Path(String::from("/home/u/docs/x")).ancestors_home(Some("/home/u"));
    assert_eq!(
        a,
        vec![
            Location::Path(String::from("/home/u/docs/x")),
            Location::Path(String::from("/home/u/docs")),
            Location::Path(String::from("/home/u")),
        ]
    );
    // Outside the home directory the trail runs to the root.
    assert_eq!(Location::Path(String::from("/opt/y")).ancestors_home(Some("/home/u")).len(), 3);
    assert!(Location::Trash.ancestors_home(Some("/home/u")).is_empty());
}

#[test]
fn tab_locationup_moves_up_hierarchy() {
    let mut location = Location::Path(String::from("/a/b/c"));
    for expected in ["/a/b", "/a", "/"] {
        location = location.up().expect("a parent");
        assert_eq!(location, Location::Path(String::from(expected)));
    }
    assert_eq!(location.up(), None);
    assert_eq!(Location::Trash.up(), None);
}

#[test]
fn a_breadcrumb_menu_action_names_its_crumb_by_steps_up() {
    let here = Location::Path(String::from("/home/u/docs"));
    let up = |action: LocationMenuAction| here.ancestor_path(action.ancestor_index());
    assert_eq!(up(LocationMenuAction::OpenInNewTab(0)).as_deref(), Some("/home/u/docs"));
    assert_eq!(up(LocationMenuAction::OpenInNewWindow(1)).as_deref(), Some("/home/u"));
    assert_eq!(up(LocationMenuAction::AddToSidebar(3)).as_deref(), Some("/"));
    assert_eq!(up(LocationMenuAction::Preview(4)), None);
    assert_eq!(Location::Trash.ancestor_path(0), None);
}

fn no_share(_: &str) -> Option<(String, String, Option<String>)> {
    None
}

fn a_dir(path: &str) -> PathFacts {
    PathFacts { canonical: Some(path.to_string()), is_dir: true }
}

#[test]
fn typed_text_is_read_as_a_remote_address_only_with_a_host_and_a_scheme_other_than_file() {
    assert_eq!(read_typed("  smb://server/share "), TypedUri::Remote(String::from("smb://server/share")));
    assert_eq!(read_typed("file:///tmp"), TypedUri::Local);
    assert_eq!(read_typed("mailto:someone"), TypedUri::Local);
    assert_eq!(read_typed("/home/u"), TypedUri::NotUri);
}

#[test]
fn submitting_a_typed_remote_address_goes_to_its_share() {
    let edit = EditLocation::from_location(Location::Path(String::from("smb://server/share")));
    // The mounter knows nothing of it: the share is still gone to.
    let r = edit.submit_home(no_share, a_dir, |_| true, Some("/home/u"));
    assert_eq!(
        r,
        Some(Location::Network(String::from("smb://server/share/"), String::from("smb://server/share"), None))
    );
}

#[test]
fn submitting_a_share_that_is_no_address_goes_to_the_path() {
    let edit = EditLocation::from_location(Location::Network(String::from("/tmp/x"), String::from("x"), None));
    let r = edit.submit_home(|_| panic!("asked the mounter"), a_dir, |_| true, Some("/home/u"));
    assert_eq!(r, Some(Location::Path(String::from("/tmp/x/"))));
}

#[test]
fn submitting_a_path_that_does_not_exist_takes_the_first_completion() {
    let mut edit = EditLocation::from_location(Location::Path(String::from("/ho")));
    edit.completions = Some(vec![(String::from("home"), String::from("/home")), (String::from("hole"), String::from("/hole"))]);
    let r = edit.submit_home(no_share, a_dir, |_| false, Some("/home/u"));
    assert_eq!(r, Some(Location::Path(String::from("/home/"))));

    // One that exists is gone to as typed.
    let mut edit = EditLocation::from_location(Location::Path(String::from("/ho")));
    edit.completions = Some(vec![(String::from("home"), String::from("/home"))]);
    let r = edit.submit_home(no_share, |_| panic!("asked the filesystem"), |_| true, Some("/home/u"));
    assert_eq!(r, Some(Location::Path(String::from("/ho"))));
}

#[test]
fn resolving_an_edit_takes_the_selected_completion_made_normal() {
    let mut edit = EditLocation::from_location(Location::Path(String::from("/ho")));
    edit.completions = Some(vec![(String::from("home"), String::from("~/docs"))]);
    edit.selected = Some(0);
    let r = edit.resolve_home(no_share, |p| PathFacts { canonical: Some(p.to_string()), is_dir: true }, Some("/home/u"));
    assert_eq!(r, Some(Location::Path(String::from("/home/u/docs/"))));

    edit.selected = Some(1);
    assert_eq!(edit.resolve_home(no_share, a_dir, None), None);
}

#[test]
fn tab_cycles_through_the_completions() {
    let mut edit = EditLocation::from_location(Location::Path(String::from("/h")));
    edit.completions = Some(vec![
        (String::from("a"), String::from("/ha")),
        (String::from("b"), String::from("/hb")),
        (String::from("c"), String::from("/hc")),
    ]);
    edit.select_home(true, no_share, a_dir, None);
    assert_eq!(edit.selected, Some(0));
    edit.select_home(false, no_share, a_dir, None);
    assert_eq!(edit.selected, Some(2));
    edit.select_home(true, no_share, a_dir, None);
    assert_eq!(edit.selected, Some(0));
}
