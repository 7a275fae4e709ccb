use earth_files::desktop::{desktop_file_display_name, desktop_file_icon, parse_desktop_file};

const LAUNCHER: &str = "[Desktop Entry]\nType=Application\nName=Files\nName[de]=Dateien\nIcon=system-file-manager\n";

fn langs(v: &[&str]) -> Vec<String> {
    v.iter().map(|s| s.to_string()).collect()
}

#[test]
fn a_launcher_gives_its_name_in_the_users_language_and_its_icon() {
    let path = "/usr/share/applications/files.desktop";
    assert_eq!(
        parse_desktop_file(path, LAUNCHER, &langs(&["de"])),
        (Some(String::from("Dateien")), Some(String::from("system-file-manager")))
    );
    assert_eq!(desktop_file_display_name(path, LAUNCHER, &langs(&["fr"])), Some(String::from("Files")));
    assert_eq!(desktop_file_icon(path, LAUNCHER), Some(String::from("system-file-manager")));
}

#[test]
fn a_file_that_does_not_parse_gives_neither() {
    // Not named as a desktop file.
    assert_eq!(parse_desktop_file("/tmp/files.txt", LAUNCHER, &langs(&["de"])), (None, None));
    // A key before any group.
    assert_eq!(parse_desktop_file("/tmp/x.desktop", "Name=x\n", &[]), (None, None));
    assert_eq!(desktop_file_icon("/tmp/x.desktop", "[Desktop Entry]\nName=x\n"), None);
}
