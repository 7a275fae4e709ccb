use std::cell::Cell;
use earth_files::tab::{
    folder_icon_name, ChecksumState, FileChecksums, SpecialDirs,
    device_of, display_name, display_name_for_file, folder_name, FolderName, fs_kind, fs_kind_of_type, get_filename_from_path, has_trailing_sep,
    parse_hidden_file, parse_u32, read_fs_kinds, respond_to_scroll_direction, seconds_ago, text_preview, text_preview_read_cap, DialogKind, ScrollDirection, Zoom,
    FsKind, HeadingOptions, Mode, MountEntry, Sort, TEXT_PREVIEW_MAX_BYTES,
};

fn mount(majmin: &str, fs_type: &str) -> MountEntry {
    MountEntry { majmin: majmin.to_string(), fs_type: fs_type.to_string() }
}

#[test]
fn filesystem_types_are_classified() {
    assert_eq!(fs_kind_of_type("ext4"), FsKind::Local);
    assert_eq!(fs_kind_of_type("nfs4"), FsKind::Remote);
    assert_eq!(fs_kind_of_type("cifs"), FsKind::Remote);
    assert_eq!(fs_kind_of_type("fuse.sshfs"), FsKind::Remote);
    assert_eq!(fs_kind_of_type("ocfs2"), FsKind::Remote);
    assert_eq!(fs_kind_of_type("fuse.gvfsd-fuse"), FsKind::Gvfs);
    assert_eq!(fs_kind_of_type("fuse"), FsKind::Local);
}

#[test]
fn numbers_parse_as_str_parse_does() {
    let p = |s: &str| parse_u32(&s.chars().collect::<Vec<_>>());
    assert_eq!(p("8"), Some(8));
    assert_eq!(p("+259"), Some(259));
    assert_eq!(p("4294967295"), Some(u32::MAX));
    assert_eq!(p("4294967296"), None);
    assert_eq!(p(""), None);
    assert_eq!(p("+"), None);
    assert_eq!(p("-1"), None);
    assert_eq!(p("1a"), None);
    for s in ["0", "17", "+3", "99999", "x", " 1", "42949672950"] {
        assert_eq!(p(s), s.parse::<u32>().ok(), "{s}");
    }
}

#[test]
fn device_numbers_are_made_as_libc_makes_them() {
    assert_eq!(device_of("8:1"), Some(libc::makedev(8, 1)));
    assert_eq!(device_of("8:1"), Some(2049));
    assert_eq!(device_of("4096:256"), Some(libc::makedev(4096, 256)));
    assert_eq!(device_of("0:52"), Some(libc::makedev(0, 52)));
    assert_eq!(device_of("259:3:9"), Some(libc::makedev(259, 3)));
    assert_eq!(device_of("8"), None);
    assert_eq!(device_of("8:"), None);
    assert_eq!(device_of(":1"), None);
    assert_ne!(device_of("1:0"), device_of("0:1"));
}

#[test]
fn the_mount_table_gives_each_device_its_kind() {
    let table = read_fs_kinds(&[
        mount("8:1", "ext4"),
        mount("0:50", "nfs"),
        mount("0:51", "fuse.gvfsd-fuse"),
        mount("bad", "nfs"),
        mount("8:1", "cifs"),
    ]);
    assert_eq!(fs_kind(&table, libc::makedev(0, 50)), FsKind::Remote);
    assert_eq!(fs_kind(&table, libc::makedev(0, 51)), FsKind::Gvfs);
    // A later mount of the same device decides.
    assert_eq!(fs_kind(&table, libc::makedev(8, 1)), FsKind::Remote);
    // Anything not mounted is local.
    assert_eq!(fs_kind(&table, libc::makedev(9, 9)), FsKind::Local);
    assert_eq!(table.len(), 3);
}

#[test]
fn trailing_separators_and_file_names() {
    assert!(has_trailing_sep("/home/u/"));
    assert!(!has_trailing_sep("/home/u"));
    assert!(!has_trailing_sep(""));
    assert_eq!(get_filename_from_path("/home/u/notes.txt").as_deref(), Some("notes.txt"));
    assert_eq!(get_filename_from_path("/"), None);
}

#[test]
fn hidden_files_list_trimmed_names() {
    let lines: Vec<String> = ["  a.txt ", "", "   ", "b", "\tc d\t"].iter().map(|s| s.to_string()).collect();
    assert_eq!(parse_hidden_file(&lines), vec!["a.txt", "b", "c d"]);
    assert!(parse_hidden_file(&[]).is_empty());
}

#[test]
fn names_can_wrap_after_periods_and_underscores() {
    assert_eq!(display_name("a_b.c"), "a_\u{200B}b.\u{200B}c");
    assert_eq!(display_name("plain"), "plain");
    assert_eq!(display_name(""), "");
}

#[test]
fn headings_name_their_messages_in_column_order() {
    assert_eq!(
        HeadingOptions::names(),
        vec!["name", "modified", "size", "trashed-on", "type-heading"]
    );
}

#[test]
fn clicking_a_heading_flips_or_picks_its_direction() {
    let mut sort = Sort { heading: HeadingOptions::Name, ascending: true };
    assert_eq!(sort.toggle(HeadingOptions::Name, false), Some(Sort { heading: HeadingOptions::Name, ascending: false }));
    assert_eq!(sort.toggle(HeadingOptions::Name, false), Some(Sort { heading: HeadingOptions::Name, ascending: true }));
    // Another column starts ascending, the modification time descending.
    assert_eq!(sort.toggle(HeadingOptions::Size, false), Some(Sort { heading: HeadingOptions::Size, ascending: true }));
    assert_eq!(sort.toggle(HeadingOptions::Modified, false), Some(Sort { heading: HeadingOptions::Modified, ascending: false }));
    // A search keeps its own order.
    let before = sort;
    assert_eq!(sort.toggle(HeadingOptions::Name, true), None);
    assert_eq!(sort, before);
    assert_eq!(sort.set(HeadingOptions::Type, true, true), None);
    assert_eq!(sort.set(HeadingOptions::Type, true, false), Some(Sort { heading: HeadingOptions::Type, ascending: true }));
    assert_eq!(sort.options(true, true), (HeadingOptions::Modified, false, false));
    assert_eq!(sort.options(false, true), (HeadingOptions::Type, true, true));
}

#[test]
fn only_multiple_open_dialogs_select_many() {
    assert!(Mode::App.multiple());
    assert!(Mode::Dialog(DialogKind::OpenMultipleFiles).multiple());
    assert!(Mode::Dialog(DialogKind::OpenMultipleFolders).multiple());
    assert!(!Mode::Dialog(DialogKind::OpenFile).multiple());
    assert!(!Mode::Dialog(DialogKind::SaveFile { filename: String::from("a") }).multiple());
}

#[test]
fn item_thumbnail_text_preview_small_utf8_returns_text() {
    assert_eq!(text_preview("hello\nworld".as_bytes()).as_deref(), Some("hello\nworld"));
}

#[test]
fn item_thumbnail_text_preview_empty_file_returns_not_image() {
    assert_eq!(text_preview(b""), None);
    assert_eq!(text_preview(b"\xff\xfe"), None);
}

#[test]
fn item_thumbnail_text_preview_invalid_utf8_uses_valid_prefix() {
    // Valid UTF-8 "ab" then invalid byte sequence then "c"
    assert_eq!(text_preview(b"ab\xff\xfe\xfdc").as_deref(), Some("ab"));
    // A character cut off at the end of what was read is dropped.
    assert_eq!(text_preview("héllo".as_bytes()[..2].as_ref()).as_deref(), Some("h"));
}

#[test]
fn a_preview_reads_at_most_its_cap() {
    assert_eq!(text_preview_read_cap(10), 10);
    assert_eq!(text_preview_read_cap(u64::MAX), TEXT_PREVIEW_MAX_BYTES);
    assert_eq!(TEXT_PREVIEW_MAX_BYTES, 256 * 1024);
}

#[test]
fn the_listed_name_prefers_desktop_and_gvfs_names() {
    assert_eq!(display_name_for_file("a.desktop", true, Some("My App"), false, None), "My App");
    assert_eq!(display_name_for_file("a.desktop", true, None, false, None), "a.\u{200B}desktop");
    assert_eq!(display_name_for_file("x", false, None, true, Some("Share on s")), "Share on s");
    assert_eq!(display_name_for_file("x_y", false, None, true, None), "x_\u{200B}y");
    assert_eq!(display_name_for_file("x", false, Some("ignored"), false, Some("ignored")), "x");
}

#[test]
fn folders_are_named_by_home_filesystem_or_their_name() {
    assert_eq!(folder_name("/", Some("/home/u"), None), (FolderName::Filesystem, false));
    assert_eq!(folder_name("/home/u", Some("/home/u/"), None), (FolderName::Home, true));
    assert_eq!(
        folder_name("/home/u/Music", Some("/home/u"), None),
        (FolderName::Named(String::from("Music")), false)
    );
    assert_eq!(
        folder_name("/home/u/Music", None, Some(String::from("Musique"))),
        (FolderName::Named(String::from("Musique")), false)
    );
}

#[test]
fn a_name_is_looked_up_once_per_id() {
    let mut cache = earth_files::tab::NameCache::new();
    let asked = Cell::new(0);
    let lookup = |id: u32| {
        asked.set(asked.get() + 1);
        format!("user{id}")
    };
    assert_eq!(earth_files::tab::cached_name(&mut cache, 1000, lookup), "user1000");
    assert_eq!(earth_files::tab::cached_name(&mut cache, 1000, lookup), "user1000");
    assert_eq!(earth_files::tab::cached_name(&mut cache, 0, lookup), "user0");
    assert_eq!(asked.get(), 2);
}

#[test]
fn special_folders_have_their_own_icons() {
    let specials = SpecialDirs::new(
        Some(String::from("/home/u/Documents")),
        Some(String::from("/home/u/Downloads")),
        None,
        None,
        None,
        None,
        None,
        // No desktop directory configured: it is the home directory.
        Some(String::from("/home/u")),
        Some(String::from("/home/u")),
    );
    assert_eq!(folder_icon_name(&specials, "/home/u/Documents"), "folder-documents");
    assert_eq!(folder_icon_name(&specials, "/home/u/Downloads/"), "folder-download");
    // Listed twice: the later entry decides.
    assert_eq!(folder_icon_name(&specials, "/home/u"), "user-home");
    assert_eq!(folder_icon_name(&specials, "/home/u/Music"), "folder");
}

#[test]
fn checksums_start_uncalculated() {
    assert_eq!(ChecksumState::default(), ChecksumState::NotCalculated);
    assert_eq!(FileChecksums::default().sha256, "");
}

#[test]
fn dot_files_and_listed_names_are_hidden() {
    let listed = vec![String::from("snap"), String::from("Desktop")];
    assert!(earth_files::tab::hidden_entry(".bashrc", &listed));
    assert!(earth_files::tab::hidden_entry("snap", &listed));
    assert!(!earth_files::tab::hidden_entry("Documents", &listed));
    assert!(!earth_files::tab::hidden_entry("snapshot", &listed));
}

#[test]
fn a_file_time_is_shown_only_between_the_epoch_and_now() {
    assert_eq!(seconds_ago(100, Some(160)), Some(60));
    assert_eq!(seconds_ago(160, Some(160)), Some(0));
    assert_eq!(seconds_ago(161, Some(160)), None);
    assert_eq!(seconds_ago(-1, Some(160)), None);
    assert_eq!(seconds_ago(0, None), None);
}

#[test]
fn tab_scroll_up_with_ctrl_modifier_zooms() {
    // A scroll of y = 1.0 goes up.
    assert_eq!(respond_to_scroll_direction(ScrollDirection::Up, true), Some(Zoom::In));
}

#[test]
fn tab_scroll_up_without_ctrl_modifier_does_not_zoom() {
    assert_eq!(respond_to_scroll_direction(ScrollDirection::Up, false), None);
}

#[test]
fn tab_scroll_down_with_ctrl_modifier_zooms() {
    // A scroll of y = -1.0 goes down.
    assert_eq!(respond_to_scroll_direction(ScrollDirection::Down, true), Some(Zoom::Out));
}

#[test]
fn tab_scroll_down_without_ctrl_modifier_does_not_zoom() {
    assert_eq!(respond_to_scroll_direction(ScrollDirection::Down, false), None);
}

#[test]
fn a_scroll_that_goes_nowhere_does_not_zoom() {
    assert_eq!(respond_to_scroll_direction(ScrollDirection::Still, true), None);
}
