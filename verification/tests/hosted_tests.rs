use steelseries_sync::hosted::{meta_from_response, pull_from_response, push_response,
    HostedProvider};
use steelseries_sync::provider::ProviderError;
use steelseries_sync::time::UtcTime;

#[test]
fn test_hosted_urls() {
    let p = HostedProvider::new(
        "https://sync.example".to_string(),
        "SECRET-REDACTED".to_string(),
        "this-pc".to_string(),
    );
    assert_eq!(p.sync_url(), "https://sync.example/sync");
    assert_eq!(p.meta_url(), "https://sync.example/sync/meta");
}

#[test]
fn test_push_response_statuses() {
    assert!(push_response(200).is_ok());
    assert!(push_response(204).is_ok());
    match push_response(500) {
        Err(ProviderError::Other(msg)) => assert_eq!(msg, "HTTP 500"),
        _ => panic!("expected an HTTP error"),
    }
    match push_response(404) {
        Err(ProviderError::Other(msg)) => assert_eq!(msg, "HTTP 404"),
        _ => panic!("expected an HTTP error"),
    }
}

#[test]
fn test_pull_response_not_found_and_errors() {
    assert!(matches!(pull_from_response(404, &Vec::new()), Err(ProviderError::NotFound)));
    match pull_from_response(503, &Vec::new()) {
        Err(ProviderError::Other(msg)) => assert_eq!(msg, "HTTP 503"),
        _ => panic!("expected an HTTP error"),
    }
    assert!(matches!(
        pull_from_response(200, &b"not json".to_vec()),
        Err(ProviderError::Other(_))
    ));
}

#[test]
fn test_pull_response_decodes_base64_body() {
    // "roundtrip-db" and "roundtrip-wal" in standard base64
    let body = "{\"db\":\"cm91bmR0cmlwLWRi\",\"db_shm\":\"\",\"db_wal\":\"cm91bmR0cmlwLXdhbA==\",\"last_modified\":\"2024-05-06T07:08:09Z\",\"device_name\":\"my-pc\"}";
    let snap = pull_from_response(200, &body.as_bytes().to_vec()).unwrap();
    assert_eq!(snap.db, b"roundtrip-db");
    assert!(snap.db_shm.is_none());
    assert_eq!(snap.db_wal.unwrap(), b"roundtrip-wal");
    assert_eq!(snap.meta.device_name, "my-pc");
    assert_eq!(
        snap.meta.last_modified,
        UtcTime { year: 2024, month: 5, day: 6, hour: 7, minute: 8, second: 9 }
    );
}

#[test]
fn test_pull_response_null_sidecars_and_whitespace() {
    let body = "{ \"db\" : \"cm91bmR0cmlwLWRi\" ,\n  \"db_shm\" : null ,\n  \"last_modified\" : \"2024-05-06T07:08:09.123456Z\" ,\n  \"device_name\" : \"gaming-rig\" }";
    let snap = pull_from_response(200, &body.as_bytes().to_vec()).unwrap();
    assert_eq!(snap.db, b"roundtrip-db");
    assert!(snap.db_shm.is_none());
    assert!(snap.db_wal.is_none());
    assert_eq!(snap.meta.device_name, "gaming-rig");
    assert_eq!(snap.meta.last_modified.second, 9);
}

#[test]
fn test_pull_response_bad_base64_is_error() {
    let body = "{\"db\":\"!!!not-base64!!!\",\"last_modified\":\"2024-05-06T07:08:09Z\",\"device_name\":\"pc\"}";
    assert!(matches!(
        pull_from_response(200, &body.as_bytes().to_vec()),
        Err(ProviderError::Other(_))
    ));
}

#[test]
fn test_meta_response() {
    let body = "{\"last_modified\":\"2031-12-31T23:59:58Z\",\"device_name\":\"laptop\"}";
    let meta = meta_from_response(200, &body.as_bytes().to_vec()).unwrap();
    assert_eq!(meta.device_name, "laptop");
    assert_eq!(
        meta.last_modified,
        UtcTime { year: 2031, month: 12, day: 31, hour: 23, minute: 59, second: 58 }
    );
    assert!(matches!(meta_from_response(404, &Vec::new()), Err(ProviderError::NotFound)));
    assert!(matches!(
        meta_from_response(200, &b"{}".to_vec()),
        Err(ProviderError::Other(_))
    ));
}
