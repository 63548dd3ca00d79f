use omarchy_imageview::folder::{
    entry_paths, folder_change_matters, sort_folder_entries, FolderEntry, FolderEvent, SortMode,
};

const SEC: i128 = 1_000_000_000;

fn entry(name: &str, secs: i128) -> FolderEntry {
    FolderEntry { path: format!("/pics/{name}"), name: name.to_string(), modified: secs * SEC }
}

fn names(entries: Vec<FolderEntry>, sort: SortMode) -> Vec<String> {
    sort_folder_entries(entries, sort).into_iter().map(|e| e.name).collect()
}

#[test]
fn test_scan_finds_images() {
    let entries: Vec<_> = (1..=5).map(|i| entry(&format!("photo{i}.jpg"), 0)).collect();
    assert_eq!(sort_folder_entries(entries, SortMode::Date).len(), 5);
}

#[test]
fn test_sorts_newest_first() {
    let entries = vec![entry("older.jpg", 200), entry("newer.jpg", 300), entry("oldest.jpg", 100)];
    assert_eq!(names(entries, SortMode::Date), vec!["newer.jpg", "older.jpg", "oldest.jpg"]);
}

#[test]
fn test_sorts_by_name() {
    let entries = vec![entry("z-last.jpg", 300), entry("a-first.jpg", 100)];
    assert_eq!(names(entries, SortMode::Name), vec!["a-first.jpg", "z-last.jpg"]);
}

#[test]
fn test_same_date_falls_back_to_name() {
    let entries = vec![entry("photo10.jpg", 1_700_000_000), entry("photo2.jpg", 1_700_000_000)];
    assert_eq!(names(entries, SortMode::Date), vec!["photo2.jpg", "photo10.jpg"]);
}

#[test]
fn test_ignores_unsupported() {
    let entries = vec![entry("readme.txt", 5), entry("photo.jpg", 1)];
    assert_eq!(sort_folder_entries(entries, SortMode::Date).len(), 1);
}

#[test]
fn test_empty_folder() {
    assert!(sort_folder_entries(Vec::new(), SortMode::Date).is_empty());
}

#[test]
fn names_compare_naturally_and_ignore_case() {
    let entries = vec![
        entry("IMG_10.png", 0),
        entry("img_9.png", 0),
        entry("Beta.png", 0),
        entry("alpha.png", 0),
    ];
    assert_eq!(names(entries, SortMode::Name), vec!["alpha.png", "Beta.png", "img_9.png", "IMG_10.png"]);
}

#[test]
fn times_before_the_epoch_sort_last() {
    let entries = vec![entry("old.png", -10), entry("new.png", 10)];
    assert_eq!(names(entries, SortMode::Date), vec!["new.png", "old.png"]);
}

#[test]
fn paths_keep_the_order() {
    let sorted = sort_folder_entries(vec![entry("b.png", 1), entry("a.png", 2)], SortMode::Date);
    assert_eq!(entry_paths(sorted), vec!["/pics/a.png".to_string(), "/pics/b.png".to_string()]);
}

#[test]
fn sort_mode_texts() {
    assert_eq!(SortMode::Date.next(), SortMode::Name);
    assert_eq!(SortMode::Name.next(), SortMode::Date);
    assert_eq!(SortMode::Date.as_str(), "date");
    assert_eq!(SortMode::parse("Name"), SortMode::Name);
    assert_eq!(SortMode::parse("size"), SortMode::Date);
    assert_eq!(SortMode::Name.label(), "Name");
    assert_eq!(SortMode::Date.tooltip(), "Sorted by date \u{2014} click for name");
}

#[test]
fn only_image_arrivals_and_departures_rescan() {
    assert!(folder_change_matters("a.png", FolderEvent::Created));
    assert!(folder_change_matters("a.png", FolderEvent::Deleted));
    assert!(folder_change_matters("a.JPG", FolderEvent::MovedIn));
    assert!(folder_change_matters("a.svg", FolderEvent::MovedOut));
    assert!(!folder_change_matters("a.png", FolderEvent::Other));
    assert!(!folder_change_matters("notes.txt", FolderEvent::Created));
}
