use steelseries_sync::safety::{validate_sqlite_header, SafetyCheck, SafetyGuard,
    is_engine_process_name};

#[test]
fn test_validate_sqlite_header_valid() {
    let mut data = b"SQLite format 3\0".to_vec();
    data.extend_from_slice(&[0u8; 100]);
    assert!(validate_sqlite_header(&data));
}

#[test]
fn test_validate_sqlite_header_invalid() {
    assert!(!validate_sqlite_header(b"not a database"));
    assert!(!validate_sqlite_header(b""));
    assert!(!validate_sqlite_header(b"SQLite format 3")); // missing null
}

#[test]
fn test_sqlite_header_boundaries() {
    // magic plus one zero byte: valid
    let mut data = b"SQLite format 3\0".to_vec();
    data.push(0);
    assert!(validate_sqlite_header(&data));
    // exactly the 16 magic bytes, nothing after: invalid (length must exceed 16)
    assert!(!validate_sqlite_header(b"SQLite format 3\0"));
    // magic without the trailing NUL: invalid
    assert!(!validate_sqlite_header(b"SQLite format 3"));
}

#[test]
fn test_safety_check_no_config() {
    let guard = SafetyGuard::new();
    assert_eq!(guard.is_safe_to_read(false, false), SafetyCheck::NoConfig);
}

#[test]
fn test_safety_check_safe_to_read() {
    let guard = SafetyGuard::new();
    assert_eq!(guard.is_safe_to_read(true, true), SafetyCheck::Safe);
}

#[test]
fn test_safety_check_locked_file() {
    let guard = SafetyGuard::new();
    assert_eq!(guard.is_safe_to_read(true, false), SafetyCheck::FileLocked);
}

#[test]
fn test_engine_process_names() {
    assert!(is_engine_process_name("SteelSeriesGG"));
    assert!(is_engine_process_name("SteelSeriesGG.exe"));
    assert!(is_engine_process_name("SteelSeriesEngine3.exe"));
    assert!(is_engine_process_name("some-SteelSeriesEngine-wrapper"));
    assert!(!is_engine_process_name("firefox"));
    assert!(!is_engine_process_name("SteelSeries"));
}

#[test]
fn test_safe_to_write_scans_processes() {
    let mut guard = SafetyGuard::new();
    let r = guard.is_safe_to_write(true, true);
    assert!(matches!(r, SafetyCheck::Safe | SafetyCheck::GGRunning));
    // an absent database is safe to write: an initial pull may create it
    let r2 = guard.is_safe_to_write(false, false);
    assert!(matches!(r2, SafetyCheck::Safe | SafetyCheck::GGRunning));
    let r3 = guard.is_safe_to_write(true, false);
    assert!(matches!(r3, SafetyCheck::FileLocked | SafetyCheck::GGRunning));
}
