//! Remote snapshot discovery: select the most recent snapshot of one
//! partition from listed object keys.
//!
//! Listing arrives in pages; [`ScanState`] folds them one after the other.
//! A malformed key aborts the whole scan — partial results are never
//! returned.  Among the requested partition's keys, a strictly greater epoch
//! replaces the candidate, so of several keys sharing the maximum epoch the
//! first one seen in listing order wins.  Listing order across pages is not
//! guaranteed stable by the remote store, so that tie-break is deliberate
//! but order-dependent.

use vstd::prelude::*;
use vstd::string::StringExecFns;
use crate::errors::SyncError;
use crate::remote_key::parse_remote_key;
use crate::remote_key::read_key;
use crate::remote_key::read_key_spec;
use crate::remote_key::KeyReading;
use crate::remote_key::RemoteSnapshotKey;

verus! {

/// Folds `keys` left to right from the candidate `init`.  `Err` carries the
/// first malformed key; `Ok` the surviving candidate, as the raw key and its
/// epoch.
pub open spec fn scan_spec(
    keys: Seq<String>,
    partition: i64,
    init: Option<(String, u128)>,
) -> Result<Option<(String, u128)>, String>
    decreases keys.len(),
{
    if keys.len() == 0 {
        Ok(init)
    } else {
        match read_key_spec(keys[0]@, partition) {
            KeyReading::Malformed => Err(keys[0]),
            KeyReading::OtherPartition => scan_spec(keys.skip(1), partition, init),
            KeyReading::Snapshot { epoch_millis } => {
                let replace = match init {
                    None => true,
                    Some(c) => epoch_millis > c.1,
                };
                if replace {
                    scan_spec(keys.skip(1), partition, Some((keys[0], epoch_millis)))
                } else {
                    scan_spec(keys.skip(1), partition, init)
                }
            },
        }
    }
}

/// The locator's running maximum across listing pages.
#[derive(Debug)]
pub struct ScanState {
    /// The best candidate so far: the raw key and its epoch.
    pub best: Option<(String, u128)>,
}

impl ScanState {
    /// A scan that has seen nothing yet.
    pub fn new() -> (r: ScanState)
        ensures
            r.best is None,
    {
        ScanState { best: None }
    }

    /// Folds one listing page into the running maximum.  A malformed key
    /// aborts with `MalformedRemoteKey` naming it; the candidate then no
    /// longer matters.
    pub fn scan_page(&mut self, keys: &Vec<String>, partition: i64) -> (r: Result<(), SyncError>)
        ensures
            match r {
                Ok(()) => scan_spec(keys@, partition, old(self).best) == Ok::<
                    Option<(String, u128)>,
                    String,
                >(final(self).best),
                Err(e) => {
                    &&& scan_spec(keys@, partition, old(self).best) matches Err(k) && e == (
                    SyncError::MalformedRemoteKey { key: k })
                },
            },
    {
        let n = keys.len();
        let mut i: usize = 0;
        proof {
            assert(keys@.skip(0) =~= keys@);
        }
        while i < n
            invariant
                i <= n,
                n == keys@.len(),
                scan_spec(keys@, partition, old(self).best) == scan_spec(
                    keys@.skip(i as int),
                    partition,
                    self.best,
                ),
            decreases n - i,
        {
            proof {
                assert(keys@.skip(i as int)[0] == keys@[i as int]);
                assert(keys@.skip(i as int).skip(1) =~= keys@.skip(i + 1));
            }
            match read_key(keys[i].as_str(), partition) {
                KeyReading::Malformed => {
                    return Err(SyncError::MalformedRemoteKey { key: keys[i].clone() });
                },
                KeyReading::OtherPartition => {},
                KeyReading::Snapshot { epoch_millis } => {
                    let replace = match &self.best {
                        None => true,
                        Some(c) => epoch_millis > c.1,
                    };
                    if replace {
                        self.best = Some((keys[i].clone(), epoch_millis));
                    }
                },
            }
            i = i + 1;
        }
        proof {
            assert(keys@.skip(n as int) =~= Seq::<String>::empty());
        }
        Ok(())
    }
}

/// Selects the most recent snapshot for `partition` among `keys`, listed
/// under one prefix in one pass.  `Ok(None)` when no key names the
/// partition; `Err` with `MalformedRemoteKey` when any key is malformed,
/// even if well-formed keys surround it.
pub fn find_latest(keys: &Vec<String>, partition: i64) -> (r: Result<
    Option<RemoteSnapshotKey>,
    SyncError,
>)
    ensures
        match r {
            Ok(opt) => {
                &&& scan_spec(keys@, partition, None) matches Ok(best)
                &&& match opt {
                    None => best is None,
                    Some(rk) => {
                        &&& best matches Some(b)
                        &&& rk.raw@ == b.0@
                        &&& rk.epoch_millis == b.1
                        &&& rk.partition == partition
                        &&& rk.wf()
                    },
                }
            },
            Err(e) => {
                &&& e.kind_spec() == crate::errors::SyncErrorKind::MalformedRemoteKey
                &&& scan_spec(keys@, partition, None) is Err
            },
        },
{
    let mut st = ScanState::new();
    match st.scan_page(keys, partition) {
        Err(e) => Err(e),
        Ok(()) => {
            match st.best {
                None => Ok(None),
                Some((raw, epoch)) => {
                    proof {
                        lemma_scan_candidate_reads_back(keys@, partition, None);
                    }
                    match parse_remote_key(raw.as_str()) {
                        Ok(rk) => Ok(Some(rk)),
                        Err(e) => Err(e),
                    }
                },
            }
        },
    }
}

/// Any candidate that survives a scan reads back as a snapshot of the
/// requested partition with the epoch it was recorded with.
pub proof fn lemma_scan_candidate_reads_back(
    keys: Seq<String>,
    partition: i64,
    init: Option<(String, u128)>,
)
    requires
        init matches Some(c) ==> read_key_spec(c.0@, partition) == (KeyReading::Snapshot {
            epoch_millis: c.1,
        }),
    ensures
        scan_spec(keys, partition, init) matches Ok(Some(c)) ==> read_key_spec(c.0@, partition)
            == (KeyReading::Snapshot { epoch_millis: c.1 }),
    decreases keys.len(),
{
    if keys.len() > 0 {
        match read_key_spec(keys[0]@, partition) {
            KeyReading::Malformed => {},
            KeyReading::OtherPartition => {
                lemma_scan_candidate_reads_back(keys.skip(1), partition, init);
            },
            KeyReading::Snapshot { epoch_millis } => {
                let replace = match init {
                    None => true,
                    Some(c) => epoch_millis > c.1,
                };
                if replace {
                    lemma_scan_candidate_reads_back(
                        keys.skip(1),
                        partition,
                        Some((keys[0], epoch_millis)),
                    );
                } else {
                    lemma_scan_candidate_reads_back(keys.skip(1), partition, init);
                }
            },
        }
    }
}

/// The scan selects by recency: when it succeeds, every key of the
/// requested partition has an epoch no greater than the survivor's, and the
/// survivor is either the initial candidate or one of the listed keys, with
/// exactly the epoch it was recorded with.
pub proof fn lemma_scan_selects_maximum(
    keys: Seq<String>,
    partition: i64,
    init: Option<(String, u128)>,
)
    ensures
        scan_spec(keys, partition, init) matches Ok(best) ==> ({
            &&& init matches Some(c0) ==> best matches Some(c) && c0.1 <= c.1
            &&& forall|i: int|
                0 <= i < keys.len() ==> (match read_key_spec((#[trigger] keys[i])@, partition) {
                    KeyReading::Snapshot { epoch_millis } => best matches Some(c) && epoch_millis
                        <= c.1,
                    _ => true,
                })
            &&& best matches Some(c) ==> init == Some(c) || exists|i: int|
                0 <= i < keys.len() && #[trigger] keys[i] == c.0 && read_key_spec(keys[i]@, partition)
                    == (KeyReading::Snapshot { epoch_millis: c.1 })
        }),
    decreases keys.len(),
{
    if keys.len() == 0 {
        return ;
    }
    let rest = keys.skip(1);
    assert(forall|i: int| 0 <= i < rest.len() ==> #[trigger] rest[i] == keys[i + 1]);
    let r0 = read_key_spec(keys[0]@, partition);
    let next = match r0 {
        KeyReading::Snapshot { epoch_millis } => {
            let replace = match init {
                None => true,
                Some(c) => epoch_millis > c.1,
            };
            if replace {
                Some((keys[0], epoch_millis))
            } else {
                init
            }
        },
        _ => init,
    };
    if r0 is Malformed {
        return ;
    }
    lemma_scan_selects_maximum(rest, partition, next);
    match scan_spec(keys, partition, init) {
        Ok(best) => {
            assert(scan_spec(rest, partition, next) == Ok::<Option<(String, u128)>, String>(best));
            assert forall|i: int|
                0 <= i < keys.len() implies (match read_key_spec(
                (#[trigger] keys[i])@,
                partition,
            ) {
                KeyReading::Snapshot { epoch_millis } => best matches Some(c) && epoch_millis
                    <= c.1,
                _ => true,
            }) by {
                if i == 0 {
                    match r0 {
                        KeyReading::Snapshot { epoch_millis } => {
                            assert(next matches Some(n) && epoch_millis <= n.1);
                        },
                        _ => {},
                    }
                } else {
                    assert(rest[i - 1] == keys[i]);
                }
            }
            match best {
                Some(c) => {
                    if next == Some(c) {
                        match r0 {
                            KeyReading::Snapshot { epoch_millis } => {
                                if init != Some(c) {
                                    assert(keys[0] == c.0 && read_key_spec(keys[0]@, partition)
                                        == (KeyReading::Snapshot { epoch_millis: c.1 }));
                                }
                            },
                            _ => {},
                        }
                    } else {
                        let j = choose|j: int|
                            0 <= j < rest.len() && #[trigger] rest[j] == c.0 && read_key_spec(
                                rest[j]@,
                                partition,
                            ) == (KeyReading::Snapshot { epoch_millis: c.1 });
                        assert(keys[j + 1] == c.0 && read_key_spec(keys[j + 1]@, partition)
                            == (KeyReading::Snapshot { epoch_millis: c.1 }));
                    }
                },
                None => {},
            }
        },
        Err(_) => {},
    }
}

/// A malformed key anywhere in the listing aborts the whole scan, and only
/// then: the scan fails exactly when some listed key is malformed, and it
/// reports the first such key — well-formed keys before or after it never
/// yield a partial selection.
pub proof fn lemma_scan_aborts_on_malformed(
    keys: Seq<String>,
    partition: i64,
    init: Option<(String, u128)>,
)
    ensures
        (scan_spec(keys, partition, init) is Err) <==> exists|i: int|
            0 <= i < keys.len() && read_key_spec((#[trigger] keys[i])@, partition) is Malformed,
        scan_spec(keys, partition, init) matches Err(k) ==> exists|i: int|
            {
                &&& 0 <= i < keys.len()
                &&& #[trigger] keys[i] == k
                &&& read_key_spec(keys[i]@, partition) is Malformed
                &&& forall|j: int|
                    0 <= j < i ==> !(read_key_spec((#[trigger] keys[j])@, partition) is Malformed)
            },
    decreases keys.len(),
{
    if keys.len() == 0 {
        return ;
    }
    let rest = keys.skip(1);
    assert(forall|i: int| 0 <= i < rest.len() ==> #[trigger] rest[i] == keys[i + 1]);
    let r0 = read_key_spec(keys[0]@, partition);
    if r0 is Malformed {
        assert(scan_spec(keys, partition, init) == Err::<Option<(String, u128)>, String>(keys[0]));
        assert(keys[0] == keys[0] && read_key_spec(keys[0]@, partition) is Malformed);
        return ;
    }
    let next = match r0 {
        KeyReading::Snapshot { epoch_millis } => {
            let replace = match init {
                None => true,
                Some(c) => epoch_millis > c.1,
            };
            if replace {
                Some((keys[0], epoch_millis))
            } else {
                init
            }
        },
        _ => init,
    };
    lemma_scan_aborts_on_malformed(rest, partition, next);
    assert(scan_spec(keys, partition, init) == scan_spec(rest, partition, next));
    if scan_spec(keys, partition, init) is Err {
        let i = choose|i: int|
            0 <= i < rest.len() && read_key_spec((#[trigger] rest[i])@, partition) is Malformed;
        assert(read_key_spec((keys[i + 1])@, partition) is Malformed);
    }
    if exists|i: int|
        0 <= i < keys.len() && read_key_spec((#[trigger] keys[i])@, partition) is Malformed {
        let i = choose|i: int|
            0 <= i < keys.len() && read_key_spec((#[trigger] keys[i])@, partition) is Malformed;
        assert(i != 0);
        assert(read_key_spec((rest[i - 1])@, partition) is Malformed);
    }
    match scan_spec(keys, partition, init) {
        Err(k) => {
            let i = choose|i: int|
                {
                    &&& 0 <= i < rest.len()
                    &&& #[trigger] rest[i] == k
                    &&& read_key_spec(rest[i]@, partition) is Malformed
                    &&& forall|j: int|
                        0 <= j < i ==> !(read_key_spec((#[trigger] rest[j])@, partition)
                            is Malformed)
                };
            assert forall|j: int|
                0 <= j < i + 1 implies !(read_key_spec((#[trigger] keys[j])@, partition)
                is Malformed) by {
                if j > 0 {
                    assert(rest[j - 1] == keys[j]);
                }
            }
            assert(keys[i + 1] == k && read_key_spec(keys[i + 1]@, partition) is Malformed);
        },
        Ok(_) => {},
    }
}

} // verus!
