use earth_files::search::{worth_sending, NewestFirst};
use earth_files::sort::{column_order, sort_order, ItemMetadata, SortItem, SortKey, TrashItemSize};
use earth_files::tab::HeadingOptions;

fn file(size: u64, modified: Option<i128>) -> SortItem {
    SortItem { is_dir: false, size_is_entries: false, size, modified, trashed: None, collation: 0 }
}

fn dir(entries: u64, modified: Option<i128>) -> SortItem {
    SortItem { is_dir: true, size_is_entries: true, size: entries, modified, trashed: None, collation: 0 }
}

#[test]
fn sizes_put_directories_first_in_either_direction() {
    let items = [file(30, None), dir(2, None), file(10, None), dir(5, None), file(20, None)];
    assert_eq!(column_order(&items, HeadingOptions::Size, true, false), vec![1, 3, 2, 4, 0]);
    assert_eq!(column_order(&items, HeadingOptions::Size, false, false), vec![3, 1, 0, 4, 2]);
}

#[test]
fn ties_keep_the_order_items_came_in() {
    let items = [file(1, None), file(1, None), file(0, None), file(1, None)];
    assert_eq!(column_order(&items, HeadingOptions::Size, true, false), vec![2, 0, 1, 3]);
    assert_eq!(column_order(&items, HeadingOptions::Size, false, false), vec![0, 1, 3, 2]);
}

#[test]
fn modification_times_put_unknown_times_first_and_folders_first_on_request() {
    let items = [file(0, Some(5)), dir(0, Some(9)), file(0, None), dir(0, Some(1))];
    assert_eq!(column_order(&items, HeadingOptions::Modified, true, false), vec![2, 3, 0, 1]);
    assert_eq!(column_order(&items, HeadingOptions::Modified, true, true), vec![3, 1, 2, 0]);
    assert_eq!(column_order(&items, HeadingOptions::Modified, false, true), vec![1, 3, 0, 2]);
}

#[test]
fn deletion_times_run_the_other_way_without_folders_first() {
    let mut a = file(0, None);
    a.trashed = Some(100);
    let mut b = file(0, None);
    b.trashed = Some(200);
    let items = [a, b];
    assert_eq!(column_order(&items, HeadingOptions::TrashedOn, true, false), vec![1, 0]);
    assert_eq!(column_order(&items, HeadingOptions::TrashedOn, true, true), vec![0, 1]);
}

/// An item named `name`, at `rank` in the collation being sorted by.
fn named(name: &'static str, is_dir: bool, rank: u64) -> (&'static str, SortItem) {
    let base = if is_dir { dir(0, None) } else { file(0, None) };
    (name, SortItem { collation: rank, ..base })
}

fn names_in(items: &[(&'static str, SortItem)], heading: HeadingOptions, ascending: bool, folders_first: bool) -> Vec<&'static str> {
    let sort_items: Vec<SortItem> = items.iter().map(|(_, item)| *item).collect();
    column_order(&sort_items, heading, ascending, folders_first).into_iter().map(|i| items[i].0).collect()
}

/// The type collation's ranks, as a caller forms them: folders as a kind of
/// their own first, then by MIME type, then by name.
fn type_ranks(entries: &[(&'static str, bool)]) -> Vec<(&'static str, SortItem)> {
    let kind = |name: &str, is_dir: bool| -> (bool, String, String) {
        let mime = if is_dir {
            String::new()
        } else {
            mime_guess::from_path(name).first_or_octet_stream().essence_str().to_string()
        };
        (!is_dir, mime, name.to_string())
    };
    let mut keys: Vec<(bool, String, String)> = entries.iter().map(|&(n, d)| kind(n, d)).collect();
    keys.sort();
    entries
        .iter()
        .map(|&(n, d)| {
            let rank = keys.iter().position(|k| *k == kind(n, d)).unwrap() as u64;
            named(n, d, rank)
        })
        .collect()
}

#[test]
fn sort_by_type_groups_mime_then_name() {
    // Names chosen so a plain name sort would interleave the two MIME groups.
    let items = type_ranks(&[("b.txt", false), ("a-folder", true), ("c.png", false), ("a.png", false)]);
    assert_eq!(names_in(&items, HeadingOptions::Type, true, true), ["a-folder", "a.png", "c.png", "b.txt"]);
    assert_eq!(names_in(&items, HeadingOptions::Type, false, true), ["a-folder", "b.txt", "c.png", "a.png"]);
    assert_eq!(names_in(&items, HeadingOptions::Type, true, false), ["a-folder", "a.png", "c.png", "b.txt"]);
    assert_eq!(names_in(&items, HeadingOptions::Type, false, false), ["b.txt", "c.png", "a.png", "a-folder"]);
}

#[test]
fn sort_by_name_follows_the_collation_with_folders_first_on_request() {
    // Ranked as a numeric collation ranks them: 2 before 10.
    let items = [
        named("file10", false, 2),
        named("Docs", true, 0),
        named("file2", false, 1),
        named("zeta", true, 3),
    ];
    assert_eq!(names_in(&items, HeadingOptions::Name, true, true), ["Docs", "zeta", "file2", "file10"]);
    assert_eq!(names_in(&items, HeadingOptions::Name, false, true), ["zeta", "Docs", "file10", "file2"]);
    assert_eq!(names_in(&items, HeadingOptions::Name, true, false), ["Docs", "file2", "file10", "zeta"]);
    // Names that collate equal keep the order they came in.
    let same = [named("a", false, 5), named("A", false, 5)];
    assert_eq!(names_in(&same, HeadingOptions::Name, false, false), ["a", "A"]);
}

#[test]
fn the_order_is_what_a_stable_sort_gives() {
    let keys: Vec<SortKey> = (0..40i128)
        .map(|i| SortKey { first: i % 7 == 0, value: if i % 5 == 0 { None } else { Some((i * 37) % 11) } })
        .collect();
    for ascending in [true, false] {
        let mut expected: Vec<usize> = (0..keys.len()).collect();
        expected.sort_by(|&a, &b| {
            let (ka, kb) = (keys[a], keys[b]);
            match (ka.first, kb.first) {
                (true, false) => std::cmp::Ordering::Less,
                (false, true) => std::cmp::Ordering::Greater,
                _ => {
                    let o = ka.value.cmp(&kb.value);
                    if ascending { o } else { o.reverse() }
                }
            }
        });
        assert_eq!(sort_order(&keys, ascending), expected);
    }
}

#[test]
fn metadata_gives_what_the_listing_sorts_by() {
    let dir = ItemMetadata::Path { is_dir: true, len: 4096, modified: Some(7), children_opt: None };
    let s = dir.sort_item(0);
    assert!(s.is_dir && s.size_is_entries);
    assert_eq!(s.size, 0);
    assert_eq!(dir.file_size(), None);
    assert_eq!(dir.modified(), Some(7));

    let file = ItemMetadata::Path { is_dir: false, len: 12, modified: None, children_opt: None };
    assert_eq!((file.sort_item(0).size_is_entries, file.sort_item(0).size), (false, 12));
    assert_eq!(file.file_size(), Some(12));

    let trashed = ItemMetadata::Trash { size: TrashItemSize::Entries(3), time_deleted: 99 };
    assert!(trashed.is_dir());
    assert_eq!(trashed.sort_item(0).trashed, Some(99));
    assert_eq!(trashed.sort_item(0).size, 3);
    assert_eq!(ItemMetadata::Trash { size: TrashItemSize::Bytes(5), time_deleted: 0 }.file_size(), Some(5));

    let gvfs = ItemMetadata::GvfsPath { mtime: 2, size_opt: None, children_opt: None, is_dir: false };
    assert_eq!(gvfs.modified(), Some(2_000_000_000));
    assert_eq!(gvfs.sort_item(0).size, 0);
    assert_eq!(
        ItemMetadata::GvfsPath { mtime: u64::MAX, size_opt: Some(1), children_opt: Some(2), is_dir: true }.modified(),
        None
    );
    assert_eq!(ItemMetadata::SimpleDir { entries: 4 }.children_count(), None);
    assert!(!ItemMetadata::SimpleFile { size: 1 }.is_dir());
}

#[test]
fn search_results_arrive_newest_first_and_only_the_newest_are_kept() {
    let mut results = NewestFirst::new();
    assert!(results.offer(Some(20), true, "b", 3));
    assert!(results.offer(Some(30), true, "a", 3));
    assert!(results.offer(None, true, "unknown", 3));
    assert!(results.offer(Some(25), true, "ab", 3));
    // Its place is past the first three: dropped.
    assert!(!results.offer(Some(5), true, "old", 3));
    assert_eq!(results.len(), 4);
    // Four held, three wanted: the newest three stay, and a search need look
    // at nothing older than the last of them.
    assert_eq!(results.settle(3), Some(20));
    assert_eq!(results.into_items(), vec!["a", "ab", "b"]);
}

#[test]
fn a_result_as_new_as_another_goes_before_it() {
    let mut results = NewestFirst::new();
    results.offer(Some(10), true, "first", 5);
    results.offer(Some(10), true, "second", 5);
    // A result without a file's time goes last.
    results.offer(Some(99), false, "trashed", 5);
    assert_eq!(results.settle(5), None);
    assert_eq!(results.into_items(), vec!["second", "first", "trashed"]);
}

#[test]
fn once_results_are_full_older_files_are_not_worth_sending() {
    assert!(worth_sending(None, true, Some(1)));
    assert!(worth_sending(Some(20), true, Some(20)));
    assert!(worth_sending(Some(20), true, Some(21)));
    assert!(!worth_sending(Some(20), true, Some(19)));
    assert!(!worth_sending(Some(20), true, None));
    // A result that is no file's is sent whatever its time.
    assert!(worth_sending(Some(20), false, None));
}
