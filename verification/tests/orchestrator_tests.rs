use ikv::config::StoreConfig;
use ikv::errors::{FailureKind, SyncError, SyncErrorKind};
use ikv::guard::{assert_valid_for_publish, evaluate, RefreshDecision};
use ikv::orchestrator::{publish_key, Action, LoadEvent, LoadSession, UploadEvent, UploadSession};

fn full_config() -> StoreConfig {
    let mut config = StoreConfig::new();
    config.set_string("mount_directory", "/tmp/ikv-store");
    config.set_string("base_index_s3_bucket_name", "ikv-base-indexes-v1");
    config.set_string("base_index_s3_bucket_prefix", "acct-7/books");
    config.set_int("partition", 4);
    config
}

fn network_action(a: &Action) -> bool {
    matches!(
        a,
        Action::ListPage { .. } | Action::Download { .. } | Action::Upload { .. }
    )
}

fn index_mutating_action(a: &Action) -> bool {
    matches!(a, Action::ClearIndex | Action::SwapIndex { .. })
}

#[test]
fn load_missing_bucket_is_config_error() {
    let mut config = StoreConfig::new();
    config.set_string("mount_directory", "/tmp/ikv-store");
    config.set_string("base_index_s3_bucket_prefix", "acct-7/books");
    config.set_int("partition", 4);
    match LoadSession::new(&config) {
        Err(SyncError::ConfigError { key }) => assert_eq!(key, "base_index_s3_bucket_name"),
        other => panic!("expected a config error, got {:?}", other.is_ok()),
    }
}

#[test]
fn load_missing_prefix_is_config_error() {
    let mut config = StoreConfig::new();
    config.set_string("mount_directory", "/tmp/ikv-store");
    config.set_string("base_index_s3_bucket_name", "ikv-base-indexes-v1");
    config.set_int("partition", 4);
    match LoadSession::new(&config) {
        Err(SyncError::ConfigError { key }) => assert_eq!(key, "base_index_s3_bucket_prefix"),
        other => panic!("expected a config error, got {:?}", other.is_ok()),
    }
}

#[test]
fn load_missing_partition_is_config_error() {
    let mut config = StoreConfig::new();
    config.set_string("mount_directory", "/tmp/ikv-store");
    config.set_string("base_index_s3_bucket_name", "ikv-base-indexes-v1");
    config.set_string("base_index_s3_bucket_prefix", "acct-7/books");
    match LoadSession::new(&config) {
        Err(SyncError::ConfigError { key }) => assert_eq!(key, "partition"),
        other => panic!("expected a config error, got {:?}", other.is_ok()),
    }
}

#[test]
fn upload_missing_keys_are_config_errors() {
    let empty = StoreConfig::new();
    match UploadSession::new(&empty) {
        Err(e) => assert_eq!(e.kind(), SyncErrorKind::Config),
        Ok(_) => panic!("an empty config must not start an upload"),
    }
}

#[test]
fn load_with_valid_index_is_quiet() {
    // Idempotence: a load that finds the index valid performs zero network
    // actions and nothing that would change the directory.
    let mut session = LoadSession::new(&full_config()).unwrap();
    let mut seen = Vec::new();
    loop {
        let action = match session.next_action() {
            Some(a) => a,
            None => break,
        };
        let event = match &action {
            Action::EnsureDirs { .. } => LoadEvent::DirsReady,
            Action::QueryEngine => LoadEvent::EngineStatus {
                absent: false,
                validity_fault: None,
            },
            other => panic!("a quiet load must not reach {:?}", other),
        };
        seen.push(action);
        session.on_event(event);
    }
    assert!(session.outcome().unwrap().is_ok());
    assert_eq!(seen.len(), 2);
    assert!(seen.iter().all(|a| !network_action(a)));
    assert!(seen.iter().all(|a| !index_mutating_action(a)));
}

#[test]
fn load_happy_path_downloads_and_swaps() {
    let mut session = LoadSession::new(&full_config()).unwrap();

    match session.next_action().unwrap() {
        Action::EnsureDirs { working_dir, index_dir } => {
            assert_eq!(working_dir, "/tmp/ikv-store/working");
            assert_eq!(index_dir, "/tmp/ikv-store/index");
        }
        other => panic!("unexpected action {:?}", other),
    }
    session.on_event(LoadEvent::DirsReady);

    assert!(matches!(session.next_action().unwrap(), Action::QueryEngine));
    session.on_event(LoadEvent::EngineStatus { absent: true, validity_fault: None });

    assert!(matches!(session.next_action().unwrap(), Action::ClearIndex));
    session.on_event(LoadEvent::IndexCleared);

    match session.next_action().unwrap() {
        Action::ListPage { bucket, prefix } => {
            assert_eq!(bucket, "ikv-base-indexes-v1");
            assert_eq!(prefix, "acct-7/books");
        }
        other => panic!("unexpected action {:?}", other),
    }
    let keys = vec![
        "acct-7/books/100/4".to_string(),
        "acct-7/books/900/4".to_string(),
        "acct-7/books/950/5".to_string(),
    ];
    session.on_event(LoadEvent::Page { keys, more: false });

    match session.next_action().unwrap() {
        Action::RemoveStaleArchive { path } => {
            assert_eq!(path, "/tmp/ikv-store/working/base_index.tar.gz");
        }
        other => panic!("unexpected action {:?}", other),
    }
    session.on_event(LoadEvent::StaleArchiveRemoved);

    match session.next_action().unwrap() {
        Action::Download { bucket, key, dest } => {
            assert_eq!(bucket, "ikv-base-indexes-v1");
            assert_eq!(key, "acct-7/books/900/4");
            assert_eq!(dest, "/tmp/ikv-store/working/base_index.tar.gz");
        }
        other => panic!("unexpected action {:?}", other),
    }
    session.on_event(LoadEvent::Downloaded);

    match session.next_action().unwrap() {
        Action::UnpackArchive { archive, staging_dir } => {
            assert_eq!(archive, "/tmp/ikv-store/working/base_index.tar.gz");
            assert_eq!(staging_dir, "/tmp/ikv-store/working/base_index");
        }
        other => panic!("unexpected action {:?}", other),
    }
    session.on_event(LoadEvent::Unpacked);

    match session.next_action().unwrap() {
        Action::SwapIndex { staging_dir, index_dir } => {
            assert_eq!(staging_dir, "/tmp/ikv-store/working/base_index");
            assert_eq!(index_dir, "/tmp/ikv-store/index");
        }
        other => panic!("unexpected action {:?}", other),
    }
    session.on_event(LoadEvent::Swapped);

    match session.next_action().unwrap() {
        Action::RemoveArchive { path } => {
            assert_eq!(path, "/tmp/ikv-store/working/base_index.tar.gz");
        }
        other => panic!("unexpected action {:?}", other),
    }
    session.on_event(LoadEvent::ArchiveRemoved);

    assert!(session.next_action().is_none());
    assert!(session.outcome().unwrap().is_ok());
}

#[test]
fn load_no_snapshot_ends_empty_and_ok() {
    // A cleared index plus an empty discovery is success, not an error.
    let mut session = LoadSession::new(&full_config()).unwrap();
    session.on_event(LoadEvent::DirsReady);
    session.on_event(LoadEvent::EngineStatus {
        absent: false,
        validity_fault: Some("checksum mismatch".to_string()),
    });
    assert!(matches!(session.next_action().unwrap(), Action::ClearIndex));
    session.on_event(LoadEvent::IndexCleared);
    let keys = vec!["acct-7/books/100/9".to_string()];
    session.on_event(LoadEvent::Page { keys, more: false });
    assert!(session.next_action().is_none());
    assert!(session.outcome().unwrap().is_ok());
}

#[test]
fn load_malformed_key_fails_even_with_more_pages() {
    let mut session = LoadSession::new(&full_config()).unwrap();
    session.on_event(LoadEvent::DirsReady);
    session.on_event(LoadEvent::EngineStatus { absent: true, validity_fault: None });
    session.on_event(LoadEvent::IndexCleared);
    let keys = vec!["acct-7/books/100/4".to_string(), "p/abc/4".to_string()];
    session.on_event(LoadEvent::Page { keys, more: true });
    // the session is already done; a later page changes nothing
    assert!(session.next_action().is_none());
    let more_keys = vec!["acct-7/books/999/4".to_string()];
    session.on_event(LoadEvent::Page { keys: more_keys, more: false });
    match session.outcome().unwrap() {
        Err(SyncError::MalformedRemoteKey { key }) => assert_eq!(key, "p/abc/4"),
        other => panic!("unexpected outcome {:?}", other),
    }
}

#[test]
fn load_bad_epoch_on_foreign_partition_still_aborts() {
    // A listed key of another partition with a non-numeric epoch is fatal
    // for the whole run.
    let mut session = LoadSession::new(&full_config()).unwrap();
    session.on_event(LoadEvent::DirsReady);
    session.on_event(LoadEvent::EngineStatus { absent: true, validity_fault: None });
    session.on_event(LoadEvent::IndexCleared);
    session.on_event(LoadEvent::Page {
        keys: vec!["a/b/abc/0".to_string()],
        more: false,
    });
    match session.outcome().unwrap() {
        Err(SyncError::MalformedRemoteKey { key }) => assert_eq!(key, "a/b/abc/0"),
        other => panic!("unexpected outcome {:?}", other),
    }
}

#[test]
fn load_paged_listing_keeps_running_maximum() {
    let mut session = LoadSession::new(&full_config()).unwrap();
    session.on_event(LoadEvent::DirsReady);
    session.on_event(LoadEvent::EngineStatus { absent: true, validity_fault: None });
    session.on_event(LoadEvent::IndexCleared);
    session.on_event(LoadEvent::Page {
        keys: vec!["acct-7/books/300/4".to_string()],
        more: true,
    });
    assert!(matches!(session.next_action().unwrap(), Action::ListPage { .. }));
    session.on_event(LoadEvent::Page {
        keys: vec!["acct-7/books/200/4".to_string()],
        more: false,
    });
    session.on_event(LoadEvent::StaleArchiveRemoved);
    match session.next_action().unwrap() {
        Action::Download { key, .. } => assert_eq!(key, "acct-7/books/300/4"),
        other => panic!("unexpected action {:?}", other),
    }
}

#[test]
fn load_failure_mid_download_surfaces_transfer_error() {
    let mut session = LoadSession::new(&full_config()).unwrap();
    session.on_event(LoadEvent::DirsReady);
    session.on_event(LoadEvent::EngineStatus { absent: true, validity_fault: None });
    session.on_event(LoadEvent::IndexCleared);
    session.on_event(LoadEvent::Page {
        keys: vec!["acct-7/books/300/4".to_string()],
        more: false,
    });
    session.on_event(LoadEvent::StaleArchiveRemoved);
    session.on_event(LoadEvent::Failed {
        kind: FailureKind::Transfer { detail: "connection reset".to_string() },
    });
    assert_eq!(session.outcome().unwrap().as_ref().unwrap_err().kind(), SyncErrorKind::Transfer);
}

#[test]
fn load_failure_ensuring_dirs_is_filesystem_error() {
    let mut session = LoadSession::new(&full_config()).unwrap();
    session.on_event(LoadEvent::Failed {
        kind: FailureKind::Filesystem { detail: "read-only mount".to_string() },
    });
    assert!(session.next_action().is_none());
    assert_eq!(
        session.outcome().unwrap().as_ref().unwrap_err().kind(),
        SyncErrorKind::Filesystem
    );
}

#[test]
fn load_failure_unpacking_is_archive_error() {
    let mut session = LoadSession::new(&full_config()).unwrap();
    session.on_event(LoadEvent::DirsReady);
    session.on_event(LoadEvent::EngineStatus { absent: true, validity_fault: None });
    session.on_event(LoadEvent::IndexCleared);
    session.on_event(LoadEvent::Page {
        keys: vec!["acct-7/books/1/4".to_string()],
        more: false,
    });
    session.on_event(LoadEvent::StaleArchiveRemoved);
    session.on_event(LoadEvent::Downloaded);
    session.on_event(LoadEvent::Failed {
        kind: FailureKind::Archive { detail: "truncated stream".to_string() },
    });
    assert_eq!(
        session.outcome().unwrap().as_ref().unwrap_err().kind(),
        SyncErrorKind::Archive
    );
}

#[test]
fn upload_invalid_index_stops_before_network() {
    // Zero network requests and a `ConsistencyError`.
    let mut session = UploadSession::new(&full_config()).unwrap();
    let mut seen = Vec::new();
    loop {
        let action = match session.next_action() {
            Some(a) => a,
            None => break,
        };
        let event = match &action {
            Action::EnsureDirs { .. } => UploadEvent::DirsReady,
            Action::QueryEngine => UploadEvent::Validity {
                fault: Some("segment 3 has a bad footer".to_string()),
            },
            other => panic!("an aborted upload must not reach {:?}", other),
        };
        seen.push(action);
        session.on_event(event);
    }
    assert!(seen.iter().all(|a| !network_action(a)));
    match session.outcome().unwrap() {
        Err(SyncError::ConsistencyError { reason }) => {
            assert_eq!(reason, "segment 3 has a bad footer");
        }
        other => panic!("unexpected outcome {:?}", other),
    }
}

#[test]
fn upload_happy_path_publishes_under_clock_epoch() {
    let mut session = UploadSession::new(&full_config()).unwrap();
    session.on_event(UploadEvent::DirsReady);
    assert!(matches!(session.next_action().unwrap(), Action::QueryEngine));
    session.on_event(UploadEvent::Validity { fault: None });
    match session.next_action().unwrap() {
        Action::RemoveStaleArchive { path } => {
            assert_eq!(path, "/tmp/ikv-store/working/base_index.tar.gz");
        }
        other => panic!("unexpected action {:?}", other),
    }
    session.on_event(UploadEvent::StaleArchiveRemoved);
    match session.next_action().unwrap() {
        Action::PackArchive { index_dir, dest } => {
            assert_eq!(index_dir, "/tmp/ikv-store/index");
            assert_eq!(dest, "/tmp/ikv-store/working/base_index.tar.gz");
        }
        other => panic!("unexpected action {:?}", other),
    }
    session.on_event(UploadEvent::Packed);
    assert!(matches!(session.next_action().unwrap(), Action::ReadClock));
    session.on_event(UploadEvent::Clock { epoch_millis: 1_700_000_000_123 });
    match session.next_action().unwrap() {
        Action::Upload { bucket, key, src } => {
            assert_eq!(bucket, "ikv-base-indexes-v1");
            assert_eq!(key, "acct-7/books/1700000000123/4");
            assert_eq!(src, "/tmp/ikv-store/working/base_index.tar.gz");
        }
        other => panic!("unexpected action {:?}", other),
    }
    session.on_event(UploadEvent::Uploaded);
    session.on_event(UploadEvent::ArchiveRemoved);
    assert!(session.next_action().is_none());
    assert!(session.outcome().unwrap().is_ok());
}

#[test]
fn publish_key_formats_positionally() {
    assert_eq!(publish_key("acct/store", 987, 12), "acct/store/987/12");
    assert_eq!(publish_key("p", 0, -3), "p/0/-3");
}

#[test]
fn published_key_is_rediscovered() {
    // What upload publishes, the next load's locator selects.
    let key = publish_key("acct-7/books", 1_700_000_000_123, 4);
    let listed = vec![key.clone(), "acct-7/books/5/4".to_string()];
    let found = ikv::locator::find_latest(&listed, 4).unwrap().unwrap();
    assert_eq!(found.raw, key);
    assert_eq!(found.epoch_millis, 1_700_000_000_123);
}

#[test]
fn guard_decides_refresh() {
    assert_eq!(evaluate(true, &None), RefreshDecision::Required);
    assert_eq!(
        evaluate(false, &Some("broken".to_string())),
        RefreshDecision::Required
    );
    assert_eq!(evaluate(false, &None), RefreshDecision::NotRequired);
}

#[test]
fn guard_publish_gate() {
    assert!(assert_valid_for_publish(None).is_ok());
    match assert_valid_for_publish(Some("missing segment".to_string())) {
        Err(SyncError::ConsistencyError { reason }) => assert_eq!(reason, "missing segment"),
        other => panic!("unexpected {:?}", other.is_ok()),
    }
}
