use s_backup::{find_remove_files, RemoteEntry};

fn file(path: &str) -> RemoteEntry {
    RemoteEntry { path: path.to_string(), size: 10, is_file: true }
}

fn web(i: u32) -> String {
    format!("backup-web-2024010{}T000000-aaaaaa{}.tar.zst", i, i)
}

#[test]
fn removes_oldest_beyond_keep() {
    let entries: Vec<RemoteEntry> = (1..=5).map(|i| file(&web(i))).collect();
    let r = find_remove_files(&entries, "web", 3);
    assert_eq!(r, vec![web(3), web(2), web(1)]);
}

#[test]
fn keep_equal_to_count_removes_one() {
    let entries: Vec<RemoteEntry> = (1..=4).map(|i| file(&web(i))).collect();
    let r = find_remove_files(&entries, "web", 4);
    assert_eq!(r, vec![web(1)]);
}

#[test]
fn keep_one_removes_all_listed() {
    let entries: Vec<RemoteEntry> = (1..=3).map(|i| file(&web(i))).collect();
    let r = find_remove_files(&entries, "web", 1);
    assert_eq!(r, vec![web(3), web(2), web(1)]);
}

#[test]
fn fewer_than_keep_removes_nothing() {
    let entries: Vec<RemoteEntry> = (1..=2).map(|i| file(&web(i))).collect();
    assert!(find_remove_files(&entries, "web", 3).is_empty());
    assert!(find_remove_files(&[], "web", 3).is_empty());
}

#[test]
fn other_entries_are_ignored() {
    let mut entries: Vec<RemoteEntry> = (1..=5).map(|i| file(&web(i))).collect();
    entries.insert(2, file("backup-db-20240101T000000-bbbbbbb.tar.zst"));
    entries.insert(0, file("notes.txt"));
    entries.insert(0, file("other-web-20240101T000000-ccccccc.tar.zst"));
    entries.push(RemoteEntry { path: web(9), size: 0, is_file: false });
    entries.push(file("backup-web-2024_01_01-00_00_00-ddddddd.tar.zst"));
    let r = find_remove_files(&entries, "web", 3);
    assert_eq!(r, vec![web(3), web(2), web(1)]);
}

#[test]
fn scenario_keep_three_after_sixth_upload() {
    let mut store: Vec<RemoteEntry> = (1..=5).map(|i| file(&web(i))).collect();
    store.insert(0, file("backup-api-20240101T000000-eeeeeee.tar.zst"));
    let listing = store.clone();
    store.push(file(&web(6)));
    let doomed = find_remove_files(&listing, "web", 3);
    store.retain(|e| !doomed.contains(&e.path));
    let left: Vec<String> = store.iter().map(|e| e.path.clone()).collect();
    assert_eq!(
        left,
        vec![
            "backup-api-20240101T000000-eeeeeee.tar.zst".to_string(),
            web(4),
            web(5),
            web(6)
        ]
    );
}
