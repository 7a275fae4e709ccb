use earth_files::uri::uri_to_path;

#[test]
fn file_uris_give_their_local_path() {
    assert_eq!(uri_to_path(String::from("file:///home/u/a.txt")).as_deref(), Some("/home/u/a.txt"));
    assert_eq!(
        uri_to_path(String::from("file:///home/u/caf%C3%A9.txt")).as_deref(),
        Some("/home/u/café.txt")
    );
    assert_eq!(uri_to_path(String::from("FILE:///tmp/x")).as_deref(), Some("/tmp/x"));
}

#[test]
fn other_uris_and_non_uris_give_none() {
    assert_eq!(uri_to_path(String::from("smb://server/share/a.txt")), None);
    assert_eq!(uri_to_path(String::from("not a uri")), None);
    assert_eq!(uri_to_path(String::from("file://otherhost/a.txt")), None);
}
