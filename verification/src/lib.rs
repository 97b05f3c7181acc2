//! Snapshot synchronization for a sharded, embeddable key-value store.
//!
//! A process keeps a local on-disk mirror of one partition's "base index"
//! consistent with a shared remote repository of immutable snapshots.  This
//! crate holds the protocol itself: configuration validation, local-state
//! consistency decisions, remote snapshot discovery by recency, archive
//! packaging, and the two orchestrated entry-point state machines (load and
//! upload).  The embedding host performs the actual network and filesystem
//! actions that the orchestrator requests, and feeds the outcomes back in as
//! events.

pub mod config;
pub mod errors;
pub mod framing;
pub mod guard;
pub mod locator;
pub mod orchestrator;
pub mod packager;
pub mod remote_key;
pub mod text;
