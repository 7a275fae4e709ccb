use earth_files::complete::{completion_dir, matching_names, offered_completions, search_pattern, CompleteError, MAX_COMPLETIONS};

fn names(v: &[&str]) -> Vec<String> {
    v.iter().map(|s| s.to_string()).collect()
}

#[test]
fn a_directory_with_a_trailing_separator_is_listed_itself() {
    assert_eq!(
        completion_dir("/home/u/", true),
        Ok((String::from("/home/u/"), String::new()))
    );
    assert_eq!(
        completion_dir("/home/u/Doc", false),
        Ok((String::from("/home/u"), String::from("Doc")))
    );
    // Not a directory: its parent is listed.
    assert_eq!(
        completion_dir("/home/u", true),
        Ok((String::from("/home"), String::from("u")))
    );
    assert_eq!(completion_dir("/", false), Err(CompleteError::NoParent));
}

#[test]
fn entries_match_what_was_typed_ignoring_case() {
    let entries = names(&["Documents", "downloads", ".dotfile", "Music", "doc.txt"]);
    assert_eq!(matching_names("doc", &entries), Ok(vec![0, 4]));
    assert_eq!(matching_names("D", &entries), Ok(vec![0, 1, 4]));
    // Typed text is taken literally, not as a pattern.
    assert_eq!(matching_names("doc.", &entries), Ok(vec![4]));
    assert_eq!(matching_names(".", &entries), Ok(vec![2]));
}

#[test]
fn hidden_entries_wait_for_something_to_be_typed() {
    let entries = names(&[".dotfile", "a", "b"]);
    assert_eq!(matching_names("", &entries), Ok(vec![1, 2]));
}

#[test]
fn a_search_matches_its_term_literally_anywhere_ignoring_case() {
    assert!(search_pattern("").is_none());
    let p = search_pattern("a.b").expect("builds");
    assert!(p.matches("xA.Bz"));
    assert!(p.matches("a.b"));
    // The dot is literal, not any character.
    assert!(!p.matches("axb"));
    let p = search_pattern("(1)").expect("builds");
    assert!(p.matches("report (1).pdf"));
    assert!(!p.matches("report 1.pdf"));
}

#[test]
fn at_most_eight_completions_are_offered_in_collation_order() {
    let candidates: Vec<(usize, u64)> = (0..10).map(|i| (i + 100, 9 - i as u64)).collect();
    let offered = offered_completions(&candidates);
    assert_eq!(MAX_COMPLETIONS, 8);
    assert_eq!(offered, vec![109, 108, 107, 106, 105, 104, 103, 102]);
}

#[test]
fn equal_ranks_keep_the_listing_order() {
    let offered = offered_completions(&[(4, 2), (1, 1), (7, 2), (3, 1)]);
    assert_eq!(offered, vec![1, 3, 4, 7]);
    assert!(offered_completions(&[]).is_empty());
}

#[test]
fn every_metacharacter_is_taken_literally() {
    let entries = names(&["a+b(1)", "aab(1)", "x[y]-z~", "x[y]-zz", "c$^|", "c"]);
    assert_eq!(matching_names("a+b(", &entries), Ok(vec![0]));
    assert_eq!(matching_names("x[y]-z~", &entries), Ok(vec![2]));
    assert_eq!(matching_names("c$^|", &entries), Ok(vec![4]));
    assert_eq!(matching_names("\\", &entries), Ok(vec![]));
}
