use steelseries_sync::backup::{BackupManager, BackupStore};
use steelseries_sync::fsmodel::Dir;
use steelseries_sync::time::UtcTime;

fn at_second(s: u32) -> UtcTime {
    UtcTime { year: 2024, month: 5, day: 6, hour: 7, minute: 8, second: s }
}

fn setup_source_dir() -> Dir {
    let mut src = Dir::new();
    src.put_file("database.db", b"main-db-content".to_vec());
    src.put_file("database.db-shm", b"shm-content".to_vec());
    src.put_file("database.db-wal", b"wal-content".to_vec());
    src.put_file("unrelated.txt", b"ignore-me".to_vec());
    src
}

#[test]
fn test_create_backup_copies_only_db_files() {
    let src = setup_source_dir();
    let mut store = BackupStore::new();
    let mgr = BackupManager::new("backups".to_string(), 20);

    mgr.create_backup(&mut store, &src, "sync", &at_second(1));

    assert_eq!(store.backups.len(), 1);
    let files = &store.backups[0].files;
    assert!(files.has_file("database.db"));
    assert!(files.has_file("database.db-shm"));
    assert!(files.has_file("database.db-wal"));
    assert!(!files.has_file("unrelated.txt"));
    assert_eq!(files.get_file("database.db").unwrap(), b"main-db-content");
}

#[test]
fn test_list_backups_returns_newest_first() {
    let src = setup_source_dir();
    let mut store = BackupStore::new();
    let mgr = BackupManager::new("backups".to_string(), 20);

    mgr.create_backup(&mut store, &src, "first", &at_second(1));
    mgr.create_backup(&mut store, &src, "second", &at_second(2));

    let list = mgr.list_backups(&store);
    assert_eq!(list.len(), 2);
    assert!(list[0].name.starts_with("second"));
    assert!(list[1].name.starts_with("first"));
}

#[test]
fn test_prune_respects_max_backups() {
    let src = setup_source_dir();
    let mut store = BackupStore::new();
    let mgr = BackupManager::new("backups".to_string(), 2);

    mgr.create_backup(&mut store, &src, "one", &at_second(1));
    mgr.create_backup(&mut store, &src, "two", &at_second(2));
    mgr.create_backup(&mut store, &src, "three", &at_second(3));

    let list = mgr.list_backups(&store);
    assert_eq!(list.len(), 2);
    assert!(list[0].name.starts_with("three"));
    assert!(list[1].name.starts_with("two"));
}

#[test]
fn test_restore_backup() {
    let mut src = setup_source_dir();
    let mut store = BackupStore::new();
    let mgr = BackupManager::new("backups".to_string(), 20);

    mgr.create_backup(&mut store, &src, "snap", &at_second(1));

    // Modify the source
    src.put_file("database.db", b"modified".to_vec());

    // Restore
    let backup = &store.backups[0].files;
    let mut target = src;
    mgr.restore_backup(backup, &mut target);
    assert_eq!(target.get_file("database.db").unwrap(), b"main-db-content");
}

#[test]
fn test_backup_name_and_path() {
    let src = setup_source_dir();
    let mut store = BackupStore::new();
    let mgr = BackupManager::new("/var/backups".to_string(), 20);

    let path = mgr.create_backup(&mut store, &src, "pre-pull", &at_second(9));

    assert_eq!(path, "/var/backups/pre-pull-2024-05-06T07-08-09");
    assert_eq!(store.backups[0].name, "pre-pull-2024-05-06T07-08-09");
}

#[test]
fn test_listing_is_sorted_under_out_of_order_creates() {
    let src = setup_source_dir();
    let mut store = BackupStore::new();
    let mgr = BackupManager::new("backups".to_string(), 20);

    mgr.create_backup(&mut store, &src, "late", &at_second(30));
    mgr.create_backup(&mut store, &src, "early", &at_second(10));
    mgr.create_backup(&mut store, &src, "middle", &at_second(20));

    let list = mgr.list_backups(&store);
    assert_eq!(list.len(), 3);
    assert!(list[0].name.starts_with("late"));
    assert!(list[1].name.starts_with("middle"));
    assert!(list[2].name.starts_with("early"));
}
