use earth_files::trash::{
    is_trash_path, locate_trash_child, original_path_for_trash_child, parse_trashinfo,
    percent_decode, trash_files_dir, trash_item_path, trash_root_candidates, TrashItem,
};

#[test]
fn percent_decode_reads_escapes_as_bytes() {
    // Percent escapes stand for UTF-8 bytes, not Latin-1 characters
    assert_eq!(
        percent_decode("/home/u/Documents/caf%C3%A9.txt"),
        Some("/home/u/Documents/café.txt".as_bytes().to_vec())
    );
    assert_eq!(
        percent_decode("/home/u/%D0%BF%D1%80%D0%B8%D0%B2%D0%B5%D1%82"),
        Some("/home/u/привет".as_bytes().to_vec())
    );

    // A name that is not valid UTF-8 survives as raw bytes
    assert_eq!(
        percent_decode("/home/u/%FF%FE"),
        Some(vec![b'/', b'h', b'o', b'm', b'e', b'/', b'u', b'/', 0xFF, 0xFE])
    );

    // Plain paths pass through, and malformed escapes are refused
    assert_eq!(
        percent_decode("/home/u/plain.txt"),
        Some(b"/home/u/plain.txt".to_vec())
    );
    assert_eq!(percent_decode("/home/u/bad%"), None);
    assert_eq!(percent_decode("/home/u/bad%zz"), None);
    assert_eq!(percent_decode("/home/u/bad%4"), None);
}

#[test]
fn lower_and_upper_case_escapes_read_the_same() {
    assert_eq!(percent_decode("%2f%2F"), Some(b"//".to_vec()));
}

#[test]
fn a_trashinfo_path_names_the_copy_in_files() {
    let item = TrashItem {
        id: String::from("/home/u/.local/share/Trash/info/report.pdf.trashinfo"),
        name: String::from("report.pdf"),
        original_parent: String::from("/home/u/Documents"),
        time_deleted: 0,
    };
    assert_eq!(
        trash_item_path(&item).as_deref(),
        Some("/home/u/.local/share/Trash/files/report.pdf")
    );
    assert_eq!(item.original_path(), "/home/u/Documents/report.pdf");

    let plain = TrashItem { id: String::from("/tmp/x"), ..item };
    assert_eq!(trash_item_path(&plain).as_deref(), Some("/tmp/x"));
}

#[test]
fn the_original_path_comes_from_the_path_key() {
    let info = "[Trash Info]\nPath=/home/u/caf%C3%A9.txt\nDeletionDate=2024-01-01T00:00:00\n";
    assert_eq!(parse_trashinfo(info), Some("/home/u/café.txt".as_bytes().to_vec()));
    assert_eq!(parse_trashinfo("[Trash Info]\nDeletionDate=2024\n"), None);
}

fn never_asked(p: &str) -> bool {
    panic!("asked whether {p} is a directory although trash folders are listed")
}

#[test]
fn with_no_trash_folders_listed_a_root_is_a_parent_holding_info() {
    let info_dirs = |p: &str| p == "/mnt/x/.Trash-1000/info";
    assert!(is_trash_path("/mnt/x/.Trash-1000/files/a", &[], info_dirs));
    assert!(!is_trash_path("/mnt/x/Documents/files/a", &[], info_dirs));
    assert_eq!(
        trash_files_dir("/mnt/x/.Trash-1000/files/a/b", &[], info_dirs).as_deref(),
        Some("/mnt/x/.Trash-1000/files")
    );
    let child = locate_trash_child("/mnt/x/.Trash-1000/files/a/b", &[], info_dirs).expect("inside the trash");
    assert_eq!(child.info_file, "/mnt/x/.Trash-1000/info/a.trashinfo");
}

#[test]
fn paths_inside_a_trash_are_recognised() {
    let roots = vec![String::from("/home/u/.local/share/Trash")];
    assert!(is_trash_path("/home/u/.local/share/Trash/files/a/b", &roots, never_asked));
    assert!(!is_trash_path("/home/u/Documents/files/a", &roots, never_asked));
    assert_eq!(
        trash_files_dir("/home/u/.local/share/Trash/files/a/b", &roots, never_asked).as_deref(),
        Some("/home/u/.local/share/Trash/files")
    );
    assert!(trash_root_candidates("/home/u/.local/share/Trash/files/a")
        .contains(&String::from("/home/u/.local/share/Trash")));
}

#[test]
fn a_path_inside_a_trashed_folder_maps_back_to_where_it_was() {
    let roots = vec![String::from("/home/u/.local/share/Trash")];
    let p = "/home/u/.local/share/Trash/files/folder/sub/file.txt";
    let child = locate_trash_child(p, &roots, never_asked).expect("inside the trash");
    assert_eq!(child.files, "/home/u/.local/share/Trash/files");
    assert_eq!(child.top, "folder");
    assert_eq!(child.info_file, "/home/u/.local/share/Trash/info/folder.trashinfo");
    let info = "[Trash Info]\nPath=/home/u/Projects/folder\nDeletionDate=2024-05-01T10:00:00\n";
    assert_eq!(
        original_path_for_trash_child(p, &child, info),
        Some(b"/home/u/Projects/folder/sub/file.txt".to_vec())
    );
    // The trashed item itself maps to the recorded path.
    let top = "/home/u/.local/share/Trash/files/folder";
    assert_eq!(original_path_for_trash_child(top, &child, info), Some(b"/home/u/Projects/folder".to_vec()));
    assert!(locate_trash_child("/home/u/Documents/a", &roots, never_asked).is_none());
}

#[test]
fn candidate_roots_are_the_parents_of_each_files_ancestor() {
    assert_eq!(
        trash_root_candidates("/mnt/x/files/y/files/z"),
        vec![String::from("/mnt/x/files/y"), String::from("/mnt/x")]
    );
    assert!(trash_root_candidates("/home/u/a").is_empty());
}
