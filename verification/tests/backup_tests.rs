use backend::backup::{
    backup_file_name, backup_interval_secs, backups_to_remove, collect_backups, BackupFile,
    DirEntryInfo, NUMBER_OF_BACKUPS_TO_KEEP,
};

fn entry(path: &str, is_file: bool, ext: Option<&str>, modified: Option<u128>) -> DirEntryInfo {
    DirEntryInfo {
        path: path.to_string(),
        is_file,
        extension: ext.map(|e| e.to_string()),
        modified,
    }
}

#[test]
fn names_and_interval() {
    assert_eq!(backup_file_name(".backups", "2024-01-02_03-04-05"), ".backups/backup_2024-01-02_03-04-05.db");
    assert_eq!(backup_interval_secs(), 172800);
    assert_eq!(NUMBER_OF_BACKUPS_TO_KEEP, 10);
}

#[test]
fn only_db_files_with_times_are_backups() {
    let entries = vec![
        entry("a.db", true, Some("db"), Some(5)),
        entry("dir.db", false, Some("db"), Some(6)),
        entry("b.txt", true, Some("txt"), Some(7)),
        entry("c", true, None, Some(8)),
        entry("d.db", true, Some("db"), None),
        entry("e.db", true, Some("db"), Some(1)),
    ];
    let b = collect_backups(&entries);
    assert_eq!(
        b,
        vec![
            BackupFile { modified: 5, path: "a.db".to_string() },
            BackupFile { modified: 1, path: "e.db".to_string() },
        ]
    );
}

#[test]
fn oldest_backups_go_first() {
    let times: Vec<u128> = vec![50, 10, 40, 30, 20, 60, 70, 80, 90, 100, 110, 5];
    let backups: Vec<BackupFile> = times
        .iter()
        .enumerate()
        .map(|(i, t)| BackupFile { modified: *t, path: format!("b{}.db", i) })
        .collect();
    let removed = backups_to_remove(&backups, 10);
    assert_eq!(removed, vec![11, 1]);
    let removed = backups_to_remove(&backups, 9);
    assert_eq!(removed, vec![11, 1, 4]);
    assert!(backups_to_remove(&backups, 12).is_empty());
    assert!(backups_to_remove(&backups, 20).is_empty());
}

#[test]
fn equal_times_keep_listing_order() {
    let backups: Vec<BackupFile> = (0..4)
        .map(|i| BackupFile { modified: 7, path: format!("b{}.db", i) })
        .collect();
    assert_eq!(backups_to_remove(&backups, 1), vec![0, 1, 2]);
}
