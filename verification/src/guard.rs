//! Local-state consistency decisions.
//!
//! The index engine owns the meaning of "valid"; this module only branches
//! on what the engine reports: whether the local index is absent, and the
//! reason its validity check failed, if it did.

use vstd::prelude::*;
use crate::errors::SyncError;

verus! {

/// Whether a fresh snapshot download is required.
#[derive(Debug, Clone, Copy, PartialEq, Eq, Structural)]
pub enum RefreshDecision {
    /// The local index must be cleared and replaced from the remote store.
    Required,
    /// The local index is present and valid; leave it alone.
    NotRequired,
}

/// Decides from the engine's report whether a download is needed.  An absent
/// index and a failed validity check both require one, and in both cases the
/// local index is cleared first (clearing an absent index is an idempotent
/// no-op).  `validity_fault` is the engine's failure reason, `None` when the
/// index is valid.
pub fn evaluate(index_absent: bool, validity_fault: &Option<String>) -> (r: RefreshDecision)
    ensures
        r == (if index_absent || validity_fault is Some {
            RefreshDecision::Required
        } else {
            RefreshDecision::NotRequired
        }),
{
    if index_absent {
        RefreshDecision::Required
    } else {
        match validity_fault {
            Some(_) => RefreshDecision::Required,
            None => RefreshDecision::NotRequired,
        }
    }
}

/// Gate for publishing: any validity fault is fatal, before any network
/// activity; the engine's reason is carried in the `ConsistencyError`.
pub fn assert_valid_for_publish(validity_fault: Option<String>) -> (r: Result<(), SyncError>)
    ensures
        match r {
            Ok(()) => validity_fault is None,
            Err(e) => {
                &&& validity_fault matches Some(reason)
                &&& e == (SyncError::ConsistencyError { reason })
            },
        },
{
    match validity_fault {
        None => Ok(()),
        Some(reason) => Err(SyncError::ConsistencyError { reason }),
    }
}

} // verus!
