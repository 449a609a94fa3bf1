use steelseries_sync::backup::BackupStore;
use steelseries_sync::config::{AppConfig, ProviderConfig};
use steelseries_sync::folder::FolderProvider;
use steelseries_sync::fsmodel::Dir;
use steelseries_sync::provider::{ConfigSnapshot, ProviderError, SyncMeta};
use steelseries_sync::sync_engine::{format_sync_result, PushStep, SkipReason, SyncEngine,
    SyncError, SyncResult};
use steelseries_sync::time::UtcTime;

fn at_second(s: u32) -> UtcTime {
    UtcTime { year: 2024, month: 5, day: 6, hour: 7, minute: 8, second: s }
}

fn test_config() -> AppConfig {
    AppConfig {
        steelseries_db_path: "/cfg/db".to_string(),
        backup_dir: "/cfg/backups".to_string(),
        max_backups: 20,
        debounce_secs: 3,
        provider: ProviderConfig::Folder { sync_dir: "/cloud/sync".to_string() },
        device_name: "this-pc".to_string(),
    }
}

fn valid_db_bytes() -> Vec<u8> {
    let mut data = b"SQLite format 3\0".to_vec();
    data.extend_from_slice(&[1u8, 2, 3, 4]);
    data
}

fn remote_with(db: &[u8], device: &str, t: &UtcTime) -> Dir {
    let mut remote = Dir::new();
    let provider = FolderProvider::new("sync".to_string(), device.to_string());
    let snap = ConfigSnapshot {
        db: db.to_vec(),
        db_shm: None,
        db_wal: None,
        meta: SyncMeta { last_modified: *t, device_name: device.to_string() },
    };
    provider.push(&mut remote, &snap, t).unwrap();
    remote
}

#[test]
fn test_pull_with_no_remote_skips() {
    let mut engine = SyncEngine::new(test_config());
    let mut local = Dir::new();
    let mut store = BackupStore::new();
    let remote = Dir::new();
    let provider = FolderProvider::new("sync".to_string(), "other-pc".to_string());

    let pulled = provider.pull(&remote);
    let r = engine
        .pull_from_remote(&mut local, &mut store, true, pulled, &at_second(1))
        .unwrap();
    assert!(matches!(r, SyncResult::Skipped(SkipReason::NoRemoteConfig)));
}

#[test]
fn test_pull_rejects_non_sqlite_remote() {
    let mut engine = SyncEngine::new(test_config());
    let mut local = Dir::new();
    local.put_file("database.db", b"local-data".to_vec());
    let mut store = BackupStore::new();
    let remote = remote_with(b"not a database", "other-pc", &at_second(1));
    let provider = FolderProvider::new("sync".to_string(), "other-pc".to_string());

    let pulled = provider.pull(&remote);
    let r = engine
        .pull_from_remote(&mut local, &mut store, true, pulled, &at_second(2))
        .unwrap();
    assert!(matches!(r, SyncResult::Skipped(SkipReason::InvalidRemoteFile)));
    // the local file is untouched
    assert_eq!(local.get_file("database.db").unwrap(), b"local-data");
    assert_eq!(store.backups.len(), 0);
}

#[test]
fn test_feedback_suppression_is_single_shot() {
    let mut engine = SyncEngine::new(test_config());
    let mut local = Dir::new();
    let mut store = BackupStore::new();
    let remote = remote_with(&valid_db_bytes(), "other-pc", &at_second(1));
    let provider = FolderProvider::new("sync".to_string(), "other-pc".to_string());

    let pulled = provider.pull(&remote);
    let r = engine
        .pull_from_remote(&mut local, &mut store, true, pulled, &at_second(2))
        .unwrap();
    assert!(matches!(r, SyncResult::Pulled { .. }));

    assert!(engine.should_suppress_push());
    assert!(!engine.should_suppress_push());
}

#[test]
fn test_pull_backs_up_existing_local() {
    let mut engine = SyncEngine::new(test_config());
    let mut local = Dir::new();
    local.put_file("database.db", b"old-local".to_vec());
    let mut store = BackupStore::new();
    let remote = remote_with(&valid_db_bytes(), "other-pc", &at_second(1));
    let provider = FolderProvider::new("sync".to_string(), "other-pc".to_string());

    let pulled = provider.pull(&remote);
    let r = engine
        .pull_from_remote(&mut local, &mut store, true, pulled, &at_second(2))
        .unwrap();
    match r {
        SyncResult::Pulled { from_device, .. } => assert_eq!(from_device, "other-pc"),
        other => panic!("expected a pull, got {}", format_sync_result(&other)),
    }
    // local now holds the remote bytes, and a pre-pull backup of the old ones exists
    assert_eq!(local.get_file("database.db").unwrap(), &valid_db_bytes());
    assert_eq!(store.backups.len(), 1);
    assert!(store.backups[0].name.starts_with("pre-pull"));
    assert_eq!(store.backups[0].files.get_file("database.db").unwrap(), b"old-local");
}

#[test]
fn test_pull_locked_local_skips() {
    let mut engine = SyncEngine::new(test_config());
    let mut local = Dir::new();
    local.put_file("database.db", b"old-local".to_vec());
    let mut store = BackupStore::new();
    let remote = remote_with(&valid_db_bytes(), "other-pc", &at_second(1));
    let provider = FolderProvider::new("sync".to_string(), "other-pc".to_string());

    let pulled = provider.pull(&remote);
    let r = engine
        .pull_from_remote(&mut local, &mut store, false, pulled, &at_second(2))
        .unwrap();
    assert!(matches!(r, SyncResult::Skipped(SkipReason::FileLocked)));
    assert_eq!(local.get_file("database.db").unwrap(), b"old-local");
    assert!(!engine.should_suppress_push());
}

#[test]
fn test_push_with_no_local_config_skips() {
    let engine = SyncEngine::new(test_config());
    let local = Dir::new();
    let step = engine.push_to_remote(&local, true, &at_second(1));
    assert!(matches!(step, PushStep::Skip(SkipReason::NoLocalConfig)));
}

#[test]
fn test_push_snapshot_carries_device_and_files() {
    let engine = SyncEngine::new(test_config());
    let mut local = Dir::new();
    local.put_file("database.db", b"db-bytes".to_vec());
    local.put_file("database.db-wal", b"wal-bytes".to_vec());
    let step = engine.push_to_remote(&local, true, &at_second(4));
    match step {
        PushStep::Ready(snap) => {
            assert_eq!(snap.db, b"db-bytes");
            assert!(snap.db_shm.is_none());
            assert_eq!(snap.db_wal.unwrap(), b"wal-bytes");
            assert_eq!(snap.meta.device_name, "this-pc");
            assert_eq!(snap.meta.last_modified, at_second(4));
        }
        PushStep::Skip(reason) => panic!("unexpected skip: {:?}", reason),
    }
}

#[test]
fn test_sync_last_writer_wins_pushes_when_local_newer() {
    let mut engine = SyncEngine::new(test_config());
    let folder = FolderProvider::new("sync".to_string(), "this-pc".to_string());
    let mut local = Dir::new();
    local.put_file("database.db", b"local-data".to_vec());
    let mut store = BackupStore::new();
    // remote last_modified at second 10; local modified at second 20
    let mut remote = remote_with(&valid_db_bytes(), "other-pc", &at_second(10));
    let local_mtime = at_second(20);

    let r = engine
        .sync(
            &folder,
            &mut local,
            &mut store,
            &mut remote,
            Some(&local_mtime),
            true,
            &at_second(30),
        )
        .unwrap();
    assert!(matches!(r, SyncResult::Pushed));
    // the push replaced the remote database and a pre-push backup exists
    assert_eq!(remote.get_file("database.db").unwrap(), b"local-data");
    assert_eq!(store.backups.len(), 1);
    assert!(store.backups[0].name.starts_with("pre-push"));
}

#[test]
fn test_sync_last_writer_wins_pulls_when_remote_newer() {
    let mut engine = SyncEngine::new(test_config());
    let folder = FolderProvider::new("sync".to_string(), "this-pc".to_string());
    let mut local = Dir::new();
    local.put_file("database.db", b"local-data".to_vec());
    let mut store = BackupStore::new();
    // remote last_modified at second 20; local modified at second 10
    let mut remote = remote_with(&valid_db_bytes(), "other-pc", &at_second(20));
    let local_mtime = at_second(10);

    let r = engine
        .sync(
            &folder,
            &mut local,
            &mut store,
            &mut remote,
            Some(&local_mtime),
            true,
            &at_second(30),
        )
        .unwrap();
    match r {
        SyncResult::Pulled { from_device, .. } => assert_eq!(from_device, "other-pc"),
        other => panic!("expected a pull, got {}", format_sync_result(&other)),
    }
    assert_eq!(local.get_file("database.db").unwrap(), &valid_db_bytes());
    assert_eq!(store.backups.len(), 1);
    assert!(store.backups[0].name.starts_with("pre-pull"));
}

#[test]
fn test_sync_pull_without_remote_database_skips() {
    let mut engine = SyncEngine::new(test_config());
    let folder = FolderProvider::new("sync".to_string(), "this-pc".to_string());
    let mut local = Dir::new();
    local.put_file("database.db", b"local-data".to_vec());
    let mut store = BackupStore::new();
    // metadata says the remote is newer, but its database file is gone
    let remote = remote_with(&valid_db_bytes(), "other-pc", &at_second(20));
    let meta_bytes = remote.get_file("sync_meta.json").unwrap().clone();
    let mut bare = Dir::new();
    bare.put_file("sync_meta.json", meta_bytes);
    let local_mtime = at_second(10);

    let r = engine
        .sync(&folder, &mut local, &mut store, &mut bare, Some(&local_mtime), true, &at_second(30))
        .unwrap();
    assert!(matches!(r, SyncResult::Skipped(SkipReason::NoRemoteConfig)));
    assert_eq!(local.get_file("database.db").unwrap(), b"local-data");
    assert_eq!(store.backups.len(), 0);
}

#[test]
fn test_sync_pull_of_invalid_remote_database_skips() {
    let mut engine = SyncEngine::new(test_config());
    let folder = FolderProvider::new("sync".to_string(), "this-pc".to_string());
    let mut local = Dir::new();
    local.put_file("database.db", b"local-data".to_vec());
    let mut store = BackupStore::new();
    let mut remote = remote_with(b"not a database", "other-pc", &at_second(20));
    let local_mtime = at_second(10);

    let r = engine
        .sync(
            &folder,
            &mut local,
            &mut store,
            &mut remote,
            Some(&local_mtime),
            true,
            &at_second(30),
        )
        .unwrap();
    assert!(matches!(r, SyncResult::Skipped(SkipReason::InvalidRemoteFile)));
    assert_eq!(local.get_file("database.db").unwrap(), b"local-data");
    assert_eq!(store.backups.len(), 0);
}

#[test]
fn test_sync_equal_timestamps_skips() {
    let mut engine = SyncEngine::new(test_config());
    let folder = FolderProvider::new("sync".to_string(), "this-pc".to_string());
    let mut local = Dir::new();
    local.put_file("database.db", b"local-data".to_vec());
    let mut store = BackupStore::new();
    let mut remote = remote_with(&valid_db_bytes(), "other-pc", &at_second(10));
    let local_mtime = at_second(10);

    let r = engine
        .sync(
            &folder,
            &mut local,
            &mut store,
            &mut remote,
            Some(&local_mtime),
            true,
            &at_second(30),
        )
        .unwrap();
    assert!(matches!(r, SyncResult::Skipped(SkipReason::AlreadyInSync)));
    assert_eq!(store.backups.len(), 0);
}

#[test]
fn test_sync_without_either_side_skips() {
    let mut engine = SyncEngine::new(test_config());
    let folder = FolderProvider::new("sync".to_string(), "this-pc".to_string());
    let mut local = Dir::new();
    let mut store = BackupStore::new();
    let mut remote = Dir::new();

    let r = engine
        .sync(&folder, &mut local, &mut store, &mut remote, None, true, &at_second(1))
        .unwrap();
    assert!(matches!(r, SyncResult::Skipped(SkipReason::NoLocalConfig)));
}

#[test]
fn test_sync_fresh_pull_into_empty_local() {
    let mut engine = SyncEngine::new(test_config());
    let folder = FolderProvider::new("sync".to_string(), "this-pc".to_string());
    let mut local = Dir::new();
    let mut store = BackupStore::new();
    let mut remote = remote_with(&valid_db_bytes(), "other-pc", &at_second(10));

    let r = engine
        .sync(&folder, &mut local, &mut store, &mut remote, None, true, &at_second(30))
        .unwrap();
    assert!(matches!(r, SyncResult::Pulled { .. }));
    assert_eq!(local.get_file("database.db").unwrap(), &valid_db_bytes());
    // nothing existed locally, so nothing was backed up
    assert_eq!(store.backups.len(), 0);
    assert!(engine.should_suppress_push());
}

#[test]
fn test_sync_fails_on_unreadable_remote_metadata() {
    let mut engine = SyncEngine::new(test_config());
    let folder = FolderProvider::new("sync".to_string(), "this-pc".to_string());
    let mut local = Dir::new();
    local.put_file("database.db", b"local-data".to_vec());
    let mut store = BackupStore::new();
    let mut remote = Dir::new();
    remote.put_file("sync_meta.json", b"{broken".to_vec());
    let local_mtime = at_second(10);

    let r = engine.sync(
        &folder,
        &mut local,
        &mut store,
        &mut remote,
        Some(&local_mtime),
        true,
        &at_second(30),
    );
    assert!(matches!(r, Err(SyncError::Provider(ProviderError::Other(_)))));
    assert_eq!(store.backups.len(), 0);
}

#[test]
fn test_format_sync_result_renderings() {
    assert_eq!(format_sync_result(&SyncResult::Pushed), "Pushed");
    assert_eq!(
        format_sync_result(&SyncResult::Pulled {
            from_device: "desk".to_string(),
            gg_was_running: false,
        }),
        "Pulled from desk"
    );
    assert_eq!(
        format_sync_result(&SyncResult::Pulled {
            from_device: "desk".to_string(),
            gg_was_running: true,
        }),
        "Pulled from desk. Restart SteelSeries GG to apply changes."
    );
    assert_eq!(
        format_sync_result(&SyncResult::Skipped(SkipReason::NoRemoteConfig)),
        "Skipped(NoRemoteConfig)"
    );
    assert_eq!(
        format_sync_result(&SyncResult::Skipped(SkipReason::InvalidRemoteFile)),
        "Skipped(InvalidRemoteFile)"
    );
}
