use shotlite::cli::history_action;
use shotlite::history::{
    is_png_extension, newest_entries, select_entry, sort_newest_first, FileTime, HistoryAction, HistoryEntry,
};

fn entry(path: &str, seconds: i64) -> HistoryEntry {
    HistoryEntry::new(path.to_string(), Some(FileTime { seconds, nanos: 0 }))
}

#[test]
fn select_entry_uses_one_based_index() {
    let entries = vec![entry("a.png", 2), entry("b.png", 1)];

    assert_eq!(select_entry(&entries, 2).unwrap().path, "b.png");
}

#[test]
fn select_entry_rejects_zero_index() {
    let entries = vec![entry("a.png", 1)];

    let error = select_entry(&entries, 0).unwrap_err().message();

    assert_eq!(error, "history index must be greater than zero");
}

#[test]
fn select_entry_rejects_missing_index() {
    let entries = vec![entry("a.png", 1)];

    let error = select_entry(&entries, 3).unwrap_err().message();

    assert_eq!(error, "history index 3 is not available; found 1 screenshot(s)");
}

#[test]
fn sort_newest_first_uses_modified_time_then_path() {
    let mut entries = vec![entry("b.png", 2), entry("a.png", 2), entry("c.png", 1)];

    sort_newest_first(&mut entries);

    let paths = entries.into_iter().map(|entry| entry.path).collect::<Vec<_>>();
    assert_eq!(paths, ["a.png", "b.png", "c.png"]);
}

#[test]
fn unknown_times_sort_last_and_nanoseconds_count() {
    let mut entries = vec![
        HistoryEntry::new("old.png".to_string(), None),
        HistoryEntry::new("x.png".to_string(), Some(FileTime { seconds: 5, nanos: 1 })),
        HistoryEntry::new("y.png".to_string(), Some(FileTime { seconds: 5, nanos: 900 })),
        HistoryEntry::new("before-epoch.png".to_string(), Some(FileTime { seconds: -3, nanos: 0 })),
    ];

    sort_newest_first(&mut entries);

    let paths = entries.into_iter().map(|entry| entry.path).collect::<Vec<_>>();
    assert_eq!(paths, ["y.png", "x.png", "before-epoch.png", "old.png"]);
}

#[test]
fn newest_entries_keep_the_limit() {
    let entries = vec![entry("a.png", 1), entry("b.png", 3), entry("c.png", 2)];

    let kept = newest_entries(entries, 2).into_iter().map(|entry| entry.path).collect::<Vec<_>>();

    assert_eq!(kept, ["b.png", "c.png"]);
}

#[test]
fn newest_entries_with_a_large_limit_keep_everything() {
    let entries = vec![entry("a.png", 1), entry("b.png", 3)];

    assert_eq!(newest_entries(entries, 20).len(), 2);
}

#[test]
fn png_extension_ignores_case() {
    assert!(is_png_extension(Some("png")));
    assert!(is_png_extension(Some("PNG")));
    assert!(is_png_extension(Some("pNg")));
    assert!(!is_png_extension(Some("txt")));
    assert!(!is_png_extension(Some("pngs")));
    assert!(!is_png_extension(None));
}

#[test]
fn history_actions_take_one_index() {
    assert_eq!(history_action(Some(1), None), Some(HistoryAction::Open(1)));
    assert_eq!(history_action(None, Some(2)), Some(HistoryAction::Reveal(2)));
    assert_eq!(history_action(None, None), None);
    assert_eq!(history_action(Some(1), Some(2)), None);
}

#[test]
fn equal_times_sort_by_path_components() {
    let mut entries = vec![entry("a-b", 4), entry("a/b", 4), entry("/z", 4), entry("./y", 4), entry("../x", 4)];

    sort_newest_first(&mut entries);

    let paths = entries.into_iter().map(|entry| entry.path).collect::<Vec<_>>();
    assert_eq!(paths, ["/z", "./y", "../x", "a/b", "a-b"]);
}

#[test]
fn paths_equal_by_components_sort_together() {
    let mut entries = vec![entry("a/c", 1), entry("a/./b", 1), entry("a/a", 1)];

    sort_newest_first(&mut entries);

    let paths = entries.into_iter().map(|entry| entry.path).collect::<Vec<_>>();
    assert_eq!(paths, ["a/a", "a/./b", "a/c"]);
}

#[test]
fn tied_entries_keep_their_order() {
    let mut entries = vec![entry("a//b.png", 1), entry("a/b.png", 1), entry("z.png", 2)];
    sort_newest_first(&mut entries);
    let paths = entries.into_iter().map(|entry| entry.path).collect::<Vec<_>>();
    assert_eq!(paths, ["z.png", "a//b.png", "a/b.png"]);

    let mut entries = vec![entry("a/b.png", 1), entry("a//b.png", 1)];
    sort_newest_first(&mut entries);
    let paths = entries.into_iter().map(|entry| entry.path).collect::<Vec<_>>();
    assert_eq!(paths, ["a/b.png", "a//b.png"]);
}
