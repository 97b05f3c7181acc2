//! Reading remote object keys of the shape `prefix/epochMillis/partition`.
//!
//! A key is split on `/`; its last segment is the shard id and its
//! second-to-last segment the publish timestamp in milliseconds.  The prefix
//! may itself contain `/`.  Every listed key is held to this shape: one with
//! fewer than three segments, or whose shard id or epoch does not parse, is
//! malformed — whichever partition it belongs to — and discovery treats
//! that as fatal for the whole scan.

use vstd::prelude::*;
use vstd::string::StrSliceExecFns;
use vstd::string::StringExecFns;
use crate::errors::SyncError;
use crate::text::lemma_seg_total_nonneg;
use crate::text::lemma_split_len;
use crate::text::lemma_split_total_len;
use crate::text::parse_i64;
use crate::text::parse_i64_spec;
use crate::text::parse_u128;
use crate::text::parse_u128_spec;
use crate::text::seg_total_len;
use crate::text::split_chars;
use crate::text::split_spec;

verus! {

/// How one listed object key reads for a requested partition.
#[derive(Debug, Clone, Copy, PartialEq, Eq, Structural)]
pub enum KeyReading {
    /// Too few segments, an unparseable shard id, or an unparseable epoch —
    /// fatal whatever partition the key belongs to.
    Malformed,
    /// A well-formed key (both numeric segments parse) that names another
    /// partition; it is skipped, never selected.
    OtherPartition,
    /// A well-formed key of the requested partition, with its publish
    /// timestamp.
    Snapshot { epoch_millis: u128 },
}

/// Reads `key` for `partition`: every listed key's last `/`-segment must
/// parse as the shard id and its second-to-last segment as the epoch; only
/// then does the shard id decide between a snapshot and a skip.
pub open spec fn read_key_spec(key: Seq<char>, partition: i64) -> KeyReading {
    let segs = split_spec(key, '/');
    if segs.len() < 3 {
        KeyReading::Malformed
    } else {
        match (parse_i64_spec(segs.last()), parse_u128_spec(segs[segs.len() - 2])) {
            (Some(p), Some(e)) => if p == partition {
                KeyReading::Snapshot { epoch_millis: e }
            } else {
                KeyReading::OtherPartition
            },
            _ => KeyReading::Malformed,
        }
    }
}

/// Reads one listed key for `partition`.
pub fn read_key(key: &str, partition: i64) -> (r: KeyReading)
    ensures
        r == read_key_spec(key@, partition),
{
    let segs = split_chars(key, '/');
    if segs.len() < 3 {
        return KeyReading::Malformed;
    }
    proof {
        assert(segs.deep_view()[segs@.len() - 1] == segs@[segs@.len() - 1]@);
        assert(segs.deep_view()[segs@.len() - 2] == segs@[segs@.len() - 2]@);
        assert(segs.deep_view().last() == segs.deep_view()[segs@.len() - 1]);
    }
    let shard = parse_i64(segs[segs.len() - 1].as_slice());
    let epoch = parse_u128(segs[segs.len() - 2].as_slice());
    match (shard, epoch) {
        (Some(p), Some(e)) => {
            if p == partition {
                KeyReading::Snapshot { epoch_millis: e }
            } else {
                KeyReading::OtherPartition
            }
        },
        _ => KeyReading::Malformed,
    }
}

/// A remote snapshot key, parsed.
#[derive(Debug, Clone)]
pub struct RemoteSnapshotKey {
    /// The raw object key exactly as listed.
    pub raw: String,
    /// The key-space prefix that owns the snapshot: everything before the
    /// epoch and partition segments.
    pub owner_prefix: String,
    /// The publish timestamp in milliseconds, read from the second-to-last
    /// segment.
    pub epoch_millis: u128,
    /// The shard id, read from the last segment.
    pub partition: i64,
}

impl RemoteSnapshotKey {
    /// The fields are exactly what reading `raw` gives.
    pub open spec fn wf(&self) -> bool {
        let segs = split_spec(self.raw@, '/');
        &&& segs.len() >= 3
        &&& parse_i64_spec(segs.last()) == Some(self.partition)
        &&& parse_u128_spec(segs[segs.len() - 2]) == Some(self.epoch_millis)
        &&& self.owner_prefix@ == self.raw@.take(
            self.raw@.len() - segs.last().len() - segs[segs.len() - 2].len() - 2,
        )
    }
}

/// Parses a listed object key into its snapshot fields.  Fails with
/// `MalformedRemoteKey` exactly when the key has fewer than three segments or
/// a numeric segment does not parse.
pub fn parse_remote_key(key: &str) -> (r: Result<RemoteSnapshotKey, SyncError>)
    ensures
        match r {
            Ok(rk) => {
                let segs = split_spec(key@, '/');
                &&& rk.raw@ == key@
                &&& rk.wf()
                &&& segs.len() >= 3
                &&& parse_i64_spec(segs.last()) is Some
                &&& parse_u128_spec(segs[segs.len() - 2]) is Some
            },
            Err(e) => {
                let segs = split_spec(key@, '/');
                &&& (e matches SyncError::MalformedRemoteKey { key: k } && k@ == key@)
                &&& (segs.len() < 3 || parse_i64_spec(segs.last()) is None || parse_u128_spec(
                    segs[segs.len() - 2],
                ) is None)
            },
        },
{
    let segs = split_chars(key, '/');
    let n = segs.len();
    if n < 3 {
        return Err(SyncError::MalformedRemoteKey { key: String::from_str(key) });
    }
    proof {
        assert(segs.deep_view()[n - 1] == segs@[n - 1]@);
        assert(segs.deep_view()[n - 2] == segs@[n - 2]@);
        assert(segs.deep_view().last() == segs.deep_view()[n - 1]);
    }
    let partition = match parse_i64(segs[n - 1].as_slice()) {
        Some(p) => p,
        None => {
            return Err(SyncError::MalformedRemoteKey { key: String::from_str(key) });
        },
    };
    let epoch_millis = match parse_u128(segs[n - 2].as_slice()) {
        Some(e) => e,
        None => {
            return Err(SyncError::MalformedRemoteKey { key: String::from_str(key) });
        },
    };
    let part_len = segs[n - 1].len();
    let epoch_len = segs[n - 2].len();
    proof {
        lemma_split_total_len(key@, '/');
        lemma_split_len(key@, '/');
        let sv = split_spec(key@, '/');
        lemma_seg_total_nonneg(sv.drop_last().drop_last());
        assert(seg_total_len(sv) == seg_total_len(sv.drop_last()) + sv.last().len());
        assert(sv.drop_last().last() == sv[sv.len() - 2]);
        assert(seg_total_len(sv.drop_last()) == seg_total_len(sv.drop_last().drop_last())
            + sv[sv.len() - 2].len());
    }
    let cut = key.unicode_len() - part_len - epoch_len - 2;
    let owner = key.substring_char(0, cut);
    Ok(
        RemoteSnapshotKey {
            raw: String::from_str(key),
            owner_prefix: String::from_str(owner),
            epoch_millis,
            partition,
        },
    )
}

} // verus!
