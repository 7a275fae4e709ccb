use earth_files::location::{Location, PathFacts, SearchLocation};
use earth_files::history::History;
use earth_files::selection::Selection;
use earth_files::navigate::{activate, decide_change, destination_home, go_to, Activation, Command, LocationChange};

const DIRS: [&str; 5] = ["/", "/a", "/a/", "/b", "/b/"];

fn is_dir(p: &str) -> bool {
    DIRS.contains(&p)
}

fn probe(p: &str) -> PathFacts {
    PathFacts { canonical: None, is_dir: is_dir(p) }
}

fn path(p: &str) -> Location {
    Location::Path(String::from(p))
}

#[test]
fn a_directory_is_entered_and_a_file_opened() {
    assert!(matches!(activate(&path("/a"), is_dir), Activation::Enter(Location::Path(p)) if p == "/a"));
    assert!(matches!(activate(&path("/a/f.txt"), is_dir), Activation::OpenFile(p) if p == "/a/f.txt"));
    assert!(matches!(activate(&Location::Trash, is_dir), Activation::Enter(Location::Trash)));
}

#[test]
fn going_to_another_directory_selects_where_the_tab_was() {
    let r = path("/a/").change_to_home(&path("/b"), probe, is_dir, Some("/home/u"));
    assert!(matches!(r, LocationChange::Move(Location::Path(p), Some(s)) if p == "/b/" && s == "/a/"));
}

#[test]
fn going_to_a_file_goes_to_its_folder_and_selects_it() {
    let r = path("/a/").change_to_home(&path("/b/f.txt"), probe, is_dir, Some("/home/u"));
    assert!(matches!(r, LocationChange::Move(Location::Path(p), Some(s)) if p == "/b" && s == "/b/f.txt"));
}

#[test]
fn going_where_the_tab_is_changes_nothing() {
    let r = path("/a/").change_to_home(&path("/a"), probe, is_dir, Some("/home/u"));
    assert!(matches!(r, LocationChange::Stay));
}

#[test]
fn a_path_that_is_no_directory_is_refused() {
    let share = Location::Network(String::from("smb://s/"), String::from("S"), Some(String::from("/mnt/f")));
    let r = path("/a/").change_to_home(&share, probe, is_dir, None);
    assert!(matches!(r, LocationChange::NotADirectory(Location::Network(u, _, Some(p))) if u == "smb://s/" && p == "/mnt/f"));
}

#[test]
fn a_location_without_a_path_is_moved_to() {
    let r = path("/a/").change_to_home(&Location::Trash, probe, is_dir, None);
    assert!(matches!(r, LocationChange::Move(Location::Trash, Some(s)) if s == "/a/"));
    let r = Location::Trash.change_to_home(&Location::Recents, probe, is_dir, None);
    assert!(matches!(r, LocationChange::Move(Location::Recents, None)));
    let r = Location::Trash.change_to_home(&Location::Trash, probe, is_dir, None);
    assert!(matches!(r, LocationChange::Stay));
}

#[test]
fn a_search_moves_to_the_folder_of_a_file() {
    let when = std::time::Instant::now();
    let search = Location::Search(SearchLocation::Path(String::from("/b/f.txt")), String::from("x"), false, when);
    let (dest, select) = destination_home(&search, false, None);
    assert!(matches!(dest, Location::Search(SearchLocation::Path(p), t, false, w) if p == "/b" && t == "x" && w == when));
    assert_eq!(select.as_deref(), Some("/b/f.txt"));
    let (dest, select) = destination_home(&search, true, None);
    assert!(matches!(dest, Location::Search(SearchLocation::Path(p), ..) if p == "/b/f.txt"));
    assert_eq!(select, None);
}

#[test]
fn the_decision_follows_what_was_said_of_the_destination() {
    let here = path("/a/");
    assert!(matches!(decide_change(&here, path("/a/"), None, true), LocationChange::Stay));
    assert!(matches!(
        decide_change(&here, path("/a/"), Some(String::from("/a/x")), true),
        LocationChange::Move(Location::Path(p), Some(s)) if p == "/a/" && s == "/a/x"
    ));
    assert!(matches!(decide_change(&here, path("/c"), None, false), LocationChange::NotADirectory(Location::Path(p)) if p == "/c"));
}

#[test]
fn paths_are_compared_as_paths() {
    let here = path("/a/b");
    assert!(matches!(decide_change(&here, path("/a//b"), None, false), LocationChange::Stay));
    assert!(matches!(decide_change(&here, path("/a/b/"), None, true), LocationChange::Stay));
    assert!(here.same_as(&path("/a/./b")));
    assert!(!here.same_as(&path("/a/c")));
}

#[test]
fn going_to_a_directory_visits_it_and_going_to_a_file_opens_it() {
    let mut h: History<u32> = History::new(path("/a/"), path("/a/"));
    let mut items = Some(Selection::new(Vec::new()));
    let r = go_to(&mut h, &mut items, &path("/b"), probe, is_dir, None);
    assert!(items.is_none());
    assert!(matches!(r, Some(Command::ChangeLocation(Location::Path(p), Some(s))) if p == "/b/" && s == "/a/"));
    assert_eq!(h.location(), &path("/b/"));
    assert_eq!(h.len(), 2);
    assert_eq!(h.current_index(), 1);
    items = Some(Selection::new(Vec::new()));
    let r = go_to(&mut h, &mut items, &path("/b/f.txt"), probe, is_dir, None);
    assert!(items.is_some());
    assert!(matches!(r, Some(Command::OpenFile(p)) if p == "/b/f.txt"));
    assert_eq!(h.location(), &path("/b/"));
    assert_eq!(h.len(), 2);
    let r = go_to(&mut h, &mut items, &path("/b"), probe, is_dir, None);
    assert!(r.is_none());
    assert!(items.is_some());
    assert_eq!(h.len(), 2);
}
