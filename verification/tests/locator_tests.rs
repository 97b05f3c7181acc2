use ikv::errors::SyncErrorKind;
use ikv::locator::{find_latest, ScanState};
use ikv::remote_key::{parse_remote_key, read_key, KeyReading};

fn keys(v: &[&str]) -> Vec<String> {
    v.iter().map(|s| s.to_string()).collect()
}

#[test]
fn epoch_selection_picks_greatest() {
    // Given `{p/100/0, p/200/0, p/150/1}` and partition 0, the key with
    // epoch 200 wins.
    let listed = keys(&["p/100/0", "p/200/0", "p/150/1"]);
    let found = find_latest(&listed, 0).unwrap().unwrap();
    assert_eq!(found.raw, "p/200/0");
    assert_eq!(found.epoch_millis, 200);
    assert_eq!(found.partition, 0);
    assert_eq!(found.owner_prefix, "p");
}

#[test]
fn no_match_returns_none() {
    let listed = keys(&["p/100/1", "p/200/2"]);
    assert!(find_latest(&listed, 0).unwrap().is_none());
    assert!(find_latest(&keys(&[]), 0).unwrap().is_none());
}

#[test]
fn malformed_key_aborts_scan() {
    // `p/abc/0` is malformed: the whole pass fails even though a
    // well-formed key with a match is listed right next to it.
    let listed = keys(&["p/100/0", "p/abc/0", "p/200/0"]);
    let err = find_latest(&listed, 0).unwrap_err();
    assert_eq!(err.kind(), SyncErrorKind::MalformedRemoteKey);
    match err {
        ikv::errors::SyncError::MalformedRemoteKey { key } => assert_eq!(key, "p/abc/0"),
        other => panic!("wrong error: {:?}", other),
    }
}

#[test]
fn malformed_key_aborts_even_across_pages() {
    // The malformed key sits in the first page; a later page full of
    // well-formed keys must never be reached.
    let mut scan = ScanState::new();
    let first = keys(&["p/100/0", "p/abc/0"]);
    let err = scan.scan_page(&first, 0).unwrap_err();
    assert_eq!(err.kind(), SyncErrorKind::MalformedRemoteKey);
}

#[test]
fn scan_carries_candidate_across_pages() {
    let mut scan = ScanState::new();
    scan.scan_page(&keys(&["p/100/0", "p/300/0"]), 0).unwrap();
    scan.scan_page(&keys(&["p/200/0"]), 0).unwrap();
    let (key, epoch) = scan.best.clone().unwrap();
    assert_eq!(key, "p/300/0");
    assert_eq!(epoch, 300);
}

#[test]
fn equal_epochs_keep_first_seen() {
    let listed = keys(&["acct/store/500/3", "acct/other/500/3"]);
    let found = find_latest(&listed, 3).unwrap().unwrap();
    assert_eq!(found.raw, "acct/store/500/3");
}

#[test]
fn epoch_zero_is_a_real_candidate() {
    let listed = keys(&["p/0/4"]);
    let found = find_latest(&listed, 4).unwrap().unwrap();
    assert_eq!(found.epoch_millis, 0);
}

#[test]
fn other_partition_with_bad_epoch_is_malformed() {
    // Every returned key is checked: a non-numeric epoch is fatal even on a
    // key whose shard id names another partition.
    assert_eq!(read_key("p/garbage/1", 0), KeyReading::Malformed);
    let err = find_latest(&keys(&["a/b/abc/0"]), 1).unwrap_err();
    assert_eq!(err.kind(), SyncErrorKind::MalformedRemoteKey);
    let err = find_latest(&keys(&["p/garbage/1", "p/9/0"]), 0).unwrap_err();
    assert_eq!(err.kind(), SyncErrorKind::MalformedRemoteKey);
}

#[test]
fn other_partition_well_formed_is_skipped() {
    assert_eq!(read_key("p/7/1", 0), KeyReading::OtherPartition);
    assert_eq!(
        find_latest(&keys(&["p/7/1", "p/9/0"]), 0)
            .unwrap()
            .unwrap()
            .epoch_millis,
        9
    );
}

#[test]
fn short_key_is_malformed() {
    assert_eq!(read_key("onlyone", 0), KeyReading::Malformed);
    assert_eq!(read_key("a/b", 0), KeyReading::Malformed);
    assert_eq!(read_key("100/0", 0), KeyReading::Malformed);
}

#[test]
fn negative_partition_parses() {
    assert_eq!(
        read_key("p/5/-3", -3),
        KeyReading::Snapshot { epoch_millis: 5 }
    );
}

#[test]
fn epoch_beyond_u128_is_malformed() {
    let too_big = format!("p/{}0/0", u128::MAX);
    assert_eq!(read_key(&too_big, 0), KeyReading::Malformed);
}

#[test]
fn parse_remote_key_extracts_fields() {
    let rk = parse_remote_key("acct/store/1700000000000/12").unwrap();
    assert_eq!(rk.raw, "acct/store/1700000000000/12");
    assert_eq!(rk.owner_prefix, "acct/store");
    assert_eq!(rk.epoch_millis, 1_700_000_000_000);
    assert_eq!(rk.partition, 12);
}

#[test]
fn parse_remote_key_rejects_malformed() {
    let err = parse_remote_key("acct/store").unwrap_err();
    assert_eq!(err.kind(), SyncErrorKind::MalformedRemoteKey);
    let err = parse_remote_key("acct/store/notanumber/0").unwrap_err();
    assert_eq!(err.kind(), SyncErrorKind::MalformedRemoteKey);
    let err = parse_remote_key("acct/store/100/notanumber").unwrap_err();
    assert_eq!(err.kind(), SyncErrorKind::MalformedRemoteKey);
}
