use steelseries_sync::folder::FolderProvider;
use steelseries_sync::fsmodel::Dir;
use steelseries_sync::provider::{ConfigSnapshot, ProviderError, SyncMeta};
use steelseries_sync::time::UtcTime;

fn sample_time() -> UtcTime {
    UtcTime { year: 2024, month: 5, day: 6, hour: 7, minute: 8, second: 9 }
}

fn snapshot(db: &[u8], shm: Option<&[u8]>, wal: Option<&[u8]>, device: &str) -> ConfigSnapshot {
    ConfigSnapshot {
        db: db.to_vec(),
        db_shm: shm.map(|b| b.to_vec()),
        db_wal: wal.map(|b| b.to_vec()),
        meta: SyncMeta { last_modified: sample_time(), device_name: device.to_string() },
    }
}

#[test]
fn test_push_creates_files() {
    let mut remote = Dir::new();
    let provider = FolderProvider::new("sync".to_string(), "test-pc".to_string());
    let snap = snapshot(b"db-content", Some(b"shm-content"), Some(b"wal-content"), "test-pc");

    provider.push(&mut remote, &snap, &sample_time()).unwrap();

    assert_eq!(remote.get_file("database.db").unwrap(), b"db-content");
    assert_eq!(remote.get_file("database.db-shm").unwrap(), b"shm-content");
    assert_eq!(remote.get_file("database.db-wal").unwrap(), b"wal-content");
    assert!(remote.has_file("sync_meta.json"));
}

#[test]
fn test_push_then_pull_roundtrip() {
    let mut remote = Dir::new();
    let provider = FolderProvider::new("sync".to_string(), "my-pc".to_string());
    let snap = snapshot(b"roundtrip-db", None, Some(b"roundtrip-wal"), "my-pc");

    provider.push(&mut remote, &snap, &sample_time()).unwrap();
    let pulled = provider.pull(&remote).unwrap();

    assert_eq!(pulled.db, b"roundtrip-db");
    assert!(pulled.db_shm.is_none());
    assert_eq!(pulled.db_wal.unwrap(), b"roundtrip-wal");
    assert_eq!(pulled.meta.device_name, "my-pc");
}

#[test]
fn test_pull_not_found() {
    let remote = Dir::new();
    let provider = FolderProvider::new("empty".to_string(), "pc".to_string());
    let result = provider.pull(&remote);
    assert!(matches!(result, Err(ProviderError::NotFound)));
}

#[test]
fn test_remote_meta() {
    let mut remote = Dir::new();
    let provider = FolderProvider::new("sync".to_string(), "gaming-rig".to_string());
    let snap = snapshot(b"data", None, None, "gaming-rig");

    provider.push(&mut remote, &snap, &sample_time()).unwrap();
    let meta = provider.remote_meta(&remote).unwrap();
    assert_eq!(meta.device_name, "gaming-rig");
    assert_eq!(meta.last_modified, sample_time());
}

#[test]
fn test_remote_meta_missing_is_not_found() {
    let remote = Dir::new();
    let provider = FolderProvider::new("sync".to_string(), "pc".to_string());
    assert!(matches!(provider.remote_meta(&remote), Err(ProviderError::NotFound)));
}

#[test]
fn test_remote_meta_garbage_is_other() {
    let mut remote = Dir::new();
    remote.put_file("sync_meta.json", b"not json at all".to_vec());
    let provider = FolderProvider::new("sync".to_string(), "pc".to_string());
    assert!(matches!(provider.remote_meta(&remote), Err(ProviderError::Other(_))));
}

#[test]
fn test_meta_survives_escaped_device_name() {
    let mut remote = Dir::new();
    let provider = FolderProvider::new("sync".to_string(), "my \"main\" pc\\lab".to_string());
    let snap = snapshot(b"data", None, None, "unused");

    provider.push(&mut remote, &snap, &sample_time()).unwrap();
    let meta = provider.remote_meta(&remote).unwrap();
    assert_eq!(meta.device_name, "my \"main\" pc\\lab");
}
