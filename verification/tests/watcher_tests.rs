use steelseries_sync::watcher::{is_db_event, ConfigWatcher, DebounceState, FsEvent, FsEventKind};

fn mock_event(path: &str, kind: FsEventKind) -> FsEvent {
    FsEvent { kind, paths: vec![path.to_string()] }
}

#[test]
fn test_is_db_event_matches_database_files() {
    let event = mock_event("/some/path/database.db", FsEventKind::Modify);
    assert!(is_db_event(&event));

    let event = mock_event("/some/path/database.db-wal", FsEventKind::Modify);
    assert!(is_db_event(&event));

    let event = mock_event("/some/path/database.db-shm", FsEventKind::Create);
    assert!(is_db_event(&event));
}

#[test]
fn test_is_db_event_ignores_unrelated_files() {
    let event = mock_event("/some/path/config.json", FsEventKind::Modify);
    assert!(!is_db_event(&event));
}

#[test]
fn test_is_db_event_ignores_delete_events() {
    let event = mock_event("/some/path/database.db", FsEventKind::Remove);
    assert!(!is_db_event(&event));
}

#[test]
fn test_is_db_event_uses_final_path_component() {
    // the prefix must appear on the file name, not merely somewhere in the path
    let event = mock_event("/database.db/other.txt", FsEventKind::Modify);
    assert!(!is_db_event(&event));

    let event = mock_event("C:\\data\\database.db-wal", FsEventKind::Modify);
    assert!(is_db_event(&event));
}

#[test]
fn test_debounce_fires_once_per_burst() {
    let mut state = DebounceState::new();
    let debounce_ms = 3000u64;

    // a burst of events
    state.note_event(1000);
    assert!(!state.poll_fire(1500, debounce_ms));
    state.note_event(2000);
    assert!(!state.poll_fire(2500, debounce_ms));
    // quiet long enough: exactly one callback
    assert!(state.poll_fire(5000, debounce_ms));
    assert!(!state.poll_fire(5500, debounce_ms));
    // next burst fires again
    state.note_event(9000);
    assert!(state.poll_fire(12500, debounce_ms));
}

#[test]
fn test_watcher_configuration() {
    let watcher = ConfigWatcher::new("/cfg/db".to_string(), 3);
    assert_eq!(watcher.config_dir, "/cfg/db");
    assert_eq!(watcher.debounce_secs, 3);
    assert_eq!(watcher.debounce_millis(), 3000);
}
