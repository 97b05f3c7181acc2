//! The two entry points, as session state machines.
//!
//! A session is created from the configuration (failing there, before any
//! I/O, when a required key is missing), hands the embedding host one
//! pending [`Action`] at a time, and consumes the host's report of how that
//! action went.  Every decision — whether to clear the index, what to list,
//! which key to fetch or publish, when the run is over — is made and
//! specified here; the host only performs the filesystem, engine, and
//! network work.  A failure report at any step ends the run with the
//! matching error; there is no internal retry.

use vstd::prelude::*;
use vstd::string::StringExecFns;
use crate::config::StoreConfig;
use crate::errors::FailureKind;
use crate::errors::SyncError;
use crate::guard::evaluate;
use crate::guard::RefreshDecision;
use crate::locator::scan_spec;
use crate::locator::ScanState;

verus! {

/// The settings one run needs, resolved from the configuration once,
/// before any other step.
pub struct SyncParams {
    /// The directory under which the working and index directories live.
    pub mount_dir: String,
    /// The remote bucket holding base index snapshots.
    pub bucket: String,
    /// The key-space prefix that owns this store's snapshots.
    pub key_prefix: String,
    /// The shard this process serves.
    pub partition: i64,
}

impl SyncParams {
    /// The fields hold exactly the configuration's required settings.
    pub open spec fn matches_config(&self, config: &StoreConfig) -> bool {
        &&& config.spec_string("mount_directory"@) == Some(self.mount_dir@)
        &&& config.spec_string("base_index_s3_bucket_name"@) == Some(self.bucket@)
        &&& config.spec_string("base_index_s3_bucket_prefix"@) == Some(self.key_prefix@)
        &&& config.spec_int("partition"@) == Some(self.partition)
    }

    /// The scratch area for transient archives.
    pub open spec fn working_dir_spec(&self) -> Seq<char> {
        self.mount_dir@ + "/working"@
    }

    /// The durable root the index engine reads from.
    pub open spec fn index_dir_spec(&self) -> Seq<char> {
        self.mount_dir@ + "/index"@
    }

    /// The transient archive's path inside the working directory.
    pub open spec fn tarball_path_spec(&self) -> Seq<char> {
        self.working_dir_spec() + "/base_index.tar.gz"@
    }

    /// Where an unpacked snapshot is staged before the atomic swap.  It
    /// shares the working directory's parent with the index directory, so
    /// the swap is one same-volume rename.
    pub open spec fn staging_dir_spec(&self) -> Seq<char> {
        self.working_dir_spec() + "/base_index"@
    }

    /// Builds the working directory's path.
    pub fn working_dir(&self) -> (r: String)
        ensures
            r@ == self.working_dir_spec(),
    {
        self.mount_dir.clone().concat("/working")
    }

    /// Builds the index directory's path.
    pub fn index_dir(&self) -> (r: String)
        ensures
            r@ == self.index_dir_spec(),
    {
        self.mount_dir.clone().concat("/index")
    }

    /// Builds the transient archive's path.
    pub fn tarball_path(&self) -> (r: String)
        ensures
            r@ == self.tarball_path_spec(),
    {
        self.working_dir().concat("/base_index.tar.gz")
    }

    /// Builds the staging directory's path.
    pub fn staging_dir(&self) -> (r: String)
        ensures
            r@ == self.staging_dir_spec(),
    {
        self.working_dir().concat("/base_index")
    }
}

/// Whether all four required settings are present in `config`.
pub open spec fn config_complete(config: &StoreConfig) -> bool {
    &&& config.spec_string("mount_directory"@) is Some
    &&& config.spec_string("base_index_s3_bucket_name"@) is Some
    &&& config.spec_string("base_index_s3_bucket_prefix"@) is Some
    &&& config.spec_int("partition"@) is Some
}

/// The name of the first missing required setting, checked in a fixed
/// order.
pub open spec fn first_missing_key(config: &StoreConfig) -> Seq<char> {
    if config.spec_string("mount_directory"@) is None {
        "mount_directory"@
    } else if config.spec_string("base_index_s3_bucket_name"@) is None {
        "base_index_s3_bucket_name"@
    } else if config.spec_string("base_index_s3_bucket_prefix"@) is None {
        "base_index_s3_bucket_prefix"@
    } else {
        "partition"@
    }
}

/// Resolves the required settings out of the configuration.  Fails with
/// `ConfigError` naming the first missing key; nothing else happens first.
pub fn resolve_params(config: &StoreConfig) -> (r: Result<SyncParams, SyncError>)
    ensures
        r is Ok <==> config_complete(config),
        r matches Ok(p) ==> p.matches_config(config),
        r matches Err(e) ==> e matches SyncError::ConfigError { key } && key@ == first_missing_key(
            config,
        ),
{
    let mount_dir = match config.get_string("mount_directory") {
        Some(v) => v.clone(),
        None => {
            return Err(SyncError::ConfigError { key: String::from_str("mount_directory") });
        },
    };
    let bucket = match config.get_string("base_index_s3_bucket_name") {
        Some(v) => v.clone(),
        None => {
            return Err(
                SyncError::ConfigError { key: String::from_str("base_index_s3_bucket_name") },
            );
        },
    };
    let key_prefix = match config.get_string("base_index_s3_bucket_prefix") {
        Some(v) => v.clone(),
        None => {
            return Err(
                SyncError::ConfigError { key: String::from_str("base_index_s3_bucket_prefix") },
            );
        },
    };
    let partition = match config.get_int("partition") {
        Some(v) => v,
        None => {
            return Err(SyncError::ConfigError { key: String::from_str("partition") });
        },
    };
    Ok(SyncParams { mount_dir, bucket, key_prefix, partition })
}

/// One step the embedding host must perform for a session.
#[derive(Debug)]
pub enum Action {
    /// Create the working and index directories if missing (idempotent).
    EnsureDirs { working_dir: String, index_dir: String },
    /// Ask the index engine whether the local index is absent, and for the
    /// reason its validity check fails, if it does.
    QueryEngine,
    /// Ask the engine to delete the whole local index (a no-op when absent).
    ClearIndex,
    /// List one page of remote object keys under the prefix (network).
    ListPage { bucket: String, prefix: String },
    /// Remove the archive at `path` if one is left over from an earlier
    /// run, so the next create-only open succeeds.
    RemoveStaleArchive { path: String },
    /// Download the remote object `key` to `dest`, create-only (network).
    Download { bucket: String, key: String, dest: String },
    /// Read the archive at `archive` and materialize its entries under the
    /// staging directory.
    UnpackArchive { archive: String, staging_dir: String },
    /// Atomically rename the staging directory onto the index directory.
    SwapIndex { staging_dir: String, index_dir: String },
    /// Remove the consumed archive.
    RemoveArchive { path: String },
    /// Pack the index directory into an archive at `dest`, create-only.
    PackArchive { index_dir: String, dest: String },
    /// Read the wall clock, as milliseconds since the epoch.
    ReadClock,
    /// Upload the archive at `src` as the remote object `key` (network).
    Upload { bucket: String, key: String, src: String },
}

/// What the embedding host reports back to a load session.
#[derive(Debug)]
pub enum LoadEvent {
    /// Both directories exist now.
    DirsReady,
    /// The engine's view of the local index: whether it is absent, and the
    /// reason it is invalid, if it is.
    EngineStatus { absent: bool, validity_fault: Option<String> },
    /// The local index is gone.
    IndexCleared,
    /// One page of listed keys, and whether more pages follow.
    Page { keys: Vec<String>, more: bool },
    /// No stale archive remains.
    StaleArchiveRemoved,
    /// The download completed.
    Downloaded,
    /// The archive's entries stand under the staging directory.
    Unpacked,
    /// The staging directory was renamed onto the index directory.
    Swapped,
    /// The consumed archive was removed.
    ArchiveRemoved,
    /// The pending action could not be carried out.
    Failed { kind: FailureKind },
}

/// Where a load session stands.  Each phase but `Done` has one pending
/// action.
#[derive(Debug)]
pub enum LoadPhase {
    /// Creating the two directories.
    EnsuringDirs,
    /// Waiting for the engine's view of the local index.
    CheckingEngine,
    /// Clearing the absent-or-invalid local index.
    ClearingIndex,
    /// Scanning listed keys page by page.
    Listing { scan: ScanState },
    /// Removing a stale archive before downloading `key`.
    RemovingStale { key: String },
    /// Downloading the selected snapshot `key`.
    Downloading { key: String },
    /// Unpacking the downloaded archive into the staging directory.
    Unpacking,
    /// Renaming the staging directory onto the index directory.
    Swapping,
    /// Removing the consumed archive.
    RemovingArchive,
    /// The run is over.
    Done { outcome: Result<(), SyncError> },
}

/// The load session's transition function: from a phase and the host's
/// report to the next phase.  A report that does not answer the pending
/// action leaves the phase unchanged.
pub open spec fn load_step(phase: LoadPhase, event: LoadEvent, partition: i64) -> LoadPhase {
    match (phase, event) {
        (LoadPhase::Done { outcome }, _) => LoadPhase::Done { outcome },
        (_, LoadEvent::Failed { kind }) => LoadPhase::Done { outcome: Err(kind.to_error_spec()) },
        (LoadPhase::EnsuringDirs, LoadEvent::DirsReady) => LoadPhase::CheckingEngine,
        (
            LoadPhase::CheckingEngine,
            LoadEvent::EngineStatus { absent, validity_fault },
        ) => if absent || validity_fault is Some {
            LoadPhase::ClearingIndex
        } else {
            LoadPhase::Done { outcome: Ok(()) }
        },
        (LoadPhase::ClearingIndex, LoadEvent::IndexCleared) => LoadPhase::Listing {
            scan: ScanState { best: None },
        },
        (LoadPhase::Listing { scan }, LoadEvent::Page { keys, more }) => {
            match scan_spec(keys@, partition, scan.best) {
                Err(k) => LoadPhase::Done {
                    outcome: Err(SyncError::MalformedRemoteKey { key: k }),
                },
                Ok(best) => if more {
                    LoadPhase::Listing { scan: ScanState { best } }
                } else {
                    match best {
                        None => LoadPhase::Done { outcome: Ok(()) },
                        Some(c) => LoadPhase::RemovingStale { key: c.0 },
                    }
                },
            }
        },
        (LoadPhase::RemovingStale { key }, LoadEvent::StaleArchiveRemoved) => {
            LoadPhase::Downloading { key }
        },
        (LoadPhase::Downloading { .. }, LoadEvent::Downloaded) => LoadPhase::Unpacking,
        (LoadPhase::Unpacking, LoadEvent::Unpacked) => LoadPhase::Swapping,
        (LoadPhase::Swapping, LoadEvent::Swapped) => LoadPhase::RemovingArchive,
        (LoadPhase::RemovingArchive, LoadEvent::ArchiveRemoved) => LoadPhase::Done {
            outcome: Ok(()),
        },
        (p, _) => p,
    }
}

/// Whether a load phase's pending action touches the network.
pub open spec fn load_phase_touches_network(phase: LoadPhase) -> bool {
    phase is Listing || phase is Downloading
}

/// Whether a load phase's pending action can change the index directory's
/// contents (beyond idempotent creation).
pub open spec fn load_phase_mutates_index(phase: LoadPhase) -> bool {
    phase is ClearingIndex || phase is Swapping
}

/// What the pending action of a load session must look like.
pub open spec fn load_action_matches(s: &LoadSession, r: Option<Action>) -> bool {
    match s.phase {
        LoadPhase::EnsuringDirs => {
            &&& r matches Some(Action::EnsureDirs { working_dir, index_dir })
            &&& working_dir@ == s.params.working_dir_spec()
            &&& index_dir@ == s.params.index_dir_spec()
        },
        LoadPhase::CheckingEngine => r matches Some(Action::QueryEngine),
        LoadPhase::ClearingIndex => r matches Some(Action::ClearIndex),
        LoadPhase::Listing { .. } => {
            &&& r matches Some(Action::ListPage { bucket, prefix })
            &&& bucket@ == s.params.bucket@
            &&& prefix@ == s.params.key_prefix@
        },
        LoadPhase::RemovingStale { .. } => {
            &&& r matches Some(Action::RemoveStaleArchive { path })
            &&& path@ == s.params.tarball_path_spec()
        },
        LoadPhase::Downloading { key } => {
            &&& r matches Some(Action::Download { bucket, key: k, dest })
            &&& bucket@ == s.params.bucket@
            &&& k@ == key@
            &&& dest@ == s.params.tarball_path_spec()
        },
        LoadPhase::Unpacking => {
            &&& r matches Some(Action::UnpackArchive { archive, staging_dir })
            &&& archive@ == s.params.tarball_path_spec()
            &&& staging_dir@ == s.params.staging_dir_spec()
        },
        LoadPhase::Swapping => {
            &&& r matches Some(Action::SwapIndex { staging_dir, index_dir })
            &&& staging_dir@ == s.params.staging_dir_spec()
            &&& index_dir@ == s.params.index_dir_spec()
        },
        LoadPhase::RemovingArchive => {
            &&& r matches Some(Action::RemoveArchive { path })
            &&& path@ == s.params.tarball_path_spec()
        },
        LoadPhase::Done { .. } => r is None,
    }
}

/// One run of the load entry point.
pub struct LoadSession {
    /// The settings resolved from the configuration.
    pub params: SyncParams,
    /// Where the run stands.
    pub phase: LoadPhase,
}

impl LoadSession {
    /// Starts a load run.  A missing required key fails with `ConfigError`
    /// here, before any action is issued.
    pub fn new(config: &StoreConfig) -> (r: Result<LoadSession, SyncError>)
        ensures
            r is Ok <==> config_complete(config),
            r matches Ok(s) ==> s.params.matches_config(config) && s.phase is EnsuringDirs,
            r matches Err(e) ==> e matches SyncError::ConfigError { key } && key@
                == first_missing_key(config),
    {
        let params = match resolve_params(config) {
            Ok(p) => p,
            Err(e) => {
                return Err(e);
            },
        };
        Ok(LoadSession { params, phase: LoadPhase::EnsuringDirs })
    }

    /// The pending action; `None` once the run is over.
    pub fn next_action(&self) -> (r: Option<Action>)
        ensures
            load_action_matches(self, r),
    {
        match &self.phase {
            LoadPhase::EnsuringDirs => Some(
                Action::EnsureDirs {
                    working_dir: self.params.working_dir(),
                    index_dir: self.params.index_dir(),
                },
            ),
            LoadPhase::CheckingEngine => Some(Action::QueryEngine),
            LoadPhase::ClearingIndex => Some(Action::ClearIndex),
            LoadPhase::Listing { .. } => Some(
                Action::ListPage {
                    bucket: self.params.bucket.clone(),
                    prefix: self.params.key_prefix.clone(),
                },
            ),
            LoadPhase::RemovingStale { .. } => Some(
                Action::RemoveStaleArchive { path: self.params.tarball_path() },
            ),
            LoadPhase::Downloading { key } => Some(
                Action::Download {
                    bucket: self.params.bucket.clone(),
                    key: key.clone(),
                    dest: self.params.tarball_path(),
                },
            ),
            LoadPhase::Unpacking => Some(
                Action::UnpackArchive {
                    archive: self.params.tarball_path(),
                    staging_dir: self.params.staging_dir(),
                },
            ),
            LoadPhase::Swapping => Some(
                Action::SwapIndex {
                    staging_dir: self.params.staging_dir(),
                    index_dir: self.params.index_dir(),
                },
            ),
            LoadPhase::RemovingArchive => Some(
                Action::RemoveArchive { path: self.params.tarball_path() },
            ),
            LoadPhase::Done { .. } => None,
        }
    }

    /// Consumes the host's report of the pending action and moves the run
    /// forward, exactly as [`load_step`] says.
    pub fn on_event(&mut self, event: LoadEvent)
        ensures
            final(self).params == old(self).params,
            final(self).phase == load_step(old(self).phase, event, old(self).params.partition),
    {
        let mut ph = LoadPhase::EnsuringDirs;
        core::mem::swap(&mut ph, &mut self.phase);
        let partition = self.params.partition;
        match (ph, event) {
            (LoadPhase::Done { outcome }, _) => {
                self.phase = LoadPhase::Done { outcome };
            },
            (_, LoadEvent::Failed { kind }) => {
                self.phase = LoadPhase::Done { outcome: Err(kind.to_error()) };
            },
            (LoadPhase::EnsuringDirs, LoadEvent::DirsReady) => {
                self.phase = LoadPhase::CheckingEngine;
            },
            (LoadPhase::CheckingEngine, LoadEvent::EngineStatus { absent, validity_fault }) => {
                match evaluate(absent, &validity_fault) {
                    RefreshDecision::Required => {
                        self.phase = LoadPhase::ClearingIndex;
                    },
                    RefreshDecision::NotRequired => {
                        self.phase = LoadPhase::Done { outcome: Ok(()) };
                    },
                }
            },
            (LoadPhase::ClearingIndex, LoadEvent::IndexCleared) => {
                self.phase = LoadPhase::Listing { scan: ScanState::new() };
            },
            (LoadPhase::Listing { scan }, LoadEvent::Page { keys, more }) => {
                let mut scan = scan;
                match scan.scan_page(&keys, partition) {
                    Err(e) => {
                        self.phase = LoadPhase::Done { outcome: Err(e) };
                    },
                    Ok(()) => {
                        if more {
                            self.phase = LoadPhase::Listing { scan };
                        } else {
                            match scan.best {
                                None => {
                                    self.phase = LoadPhase::Done { outcome: Ok(()) };
                                },
                                Some(c) => {
                                    self.phase = LoadPhase::RemovingStale { key: c.0 };
                                },
                            }
                        }
                    },
                }
            },
            (LoadPhase::RemovingStale { key }, LoadEvent::StaleArchiveRemoved) => {
                self.phase = LoadPhase::Downloading { key };
            },
            (LoadPhase::Downloading { key: _ }, LoadEvent::Downloaded) => {
                self.phase = LoadPhase::Unpacking;
            },
            (LoadPhase::Unpacking, LoadEvent::Unpacked) => {
                self.phase = LoadPhase::Swapping;
            },
            (LoadPhase::Swapping, LoadEvent::Swapped) => {
                self.phase = LoadPhase::RemovingArchive;
            },
            (LoadPhase::RemovingArchive, LoadEvent::ArchiveRemoved) => {
                self.phase = LoadPhase::Done { outcome: Ok(()) };
            },
            (p, _) => {
                self.phase = p;
            },
        }
    }

    /// The run's outcome, once it is over.
    pub fn outcome(&self) -> (r: Option<&Result<(), SyncError>>)
        ensures
            match self.phase {
                LoadPhase::Done { outcome } => r matches Some(o) && *o == outcome,
                _ => r is None,
            },
    {
        match &self.phase {
            LoadPhase::Done { outcome } => Some(outcome),
            _ => None,
        }
    }
}

/// A load run that finds the local index present and valid finishes at
/// once: its phases reach no network action and nothing that clears or
/// replaces the index, so a repeated load against an already-valid index
/// performs no network call and leaves the directory unchanged.
/// [`LoadSession::new`] yields exactly this starting phase whenever the
/// configuration is complete, and `ConfigError` with no session otherwise,
/// so every load run that begins is covered.
pub proof fn lemma_load_valid_index_is_quiet(partition: i64)
    ensures
        ({
            let s0 = LoadPhase::EnsuringDirs;
            let s1 = load_step(s0, LoadEvent::DirsReady, partition);
            let s2 = load_step(
                s1,
                LoadEvent::EngineStatus { absent: false, validity_fault: None },
                partition,
            );
            &&& s1 == LoadPhase::CheckingEngine
            &&& s2 == (LoadPhase::Done { outcome: Ok::<(), SyncError>(()) })
            &&& !load_phase_touches_network(s0) && !load_phase_mutates_index(s0)
            &&& !load_phase_touches_network(s1) && !load_phase_mutates_index(s1)
            &&& !load_phase_touches_network(s2) && !load_phase_mutates_index(s2)
        }),
{
}

/// A load that had to clear its index but finds no remote snapshot for the
/// partition ends successfully with the index left empty: after the clear,
/// no phase of the run downloads or swaps anything in.  As above, the
/// starting phase is what [`LoadSession::new`] gives every complete
/// configuration; what an empty index answers to a point lookup is the
/// engine's own affair.
pub proof fn lemma_load_no_snapshot_leaves_empty(
    partition: i64,
    reason: String,
    keys: Vec<String>,
)
    requires
        scan_spec(keys@, partition, None) == Ok::<Option<(String, u128)>, String>(None),
    ensures
        ({
            let s0 = LoadPhase::EnsuringDirs;
            let s1 = load_step(s0, LoadEvent::DirsReady, partition);
            let s2 = load_step(
                s1,
                LoadEvent::EngineStatus { absent: false, validity_fault: Some(reason) },
                partition,
            );
            let s3 = load_step(s2, LoadEvent::IndexCleared, partition);
            let s4 = load_step(s3, LoadEvent::Page { keys, more: false }, partition);
            &&& s1 == LoadPhase::CheckingEngine
            &&& s2 == LoadPhase::ClearingIndex
            &&& s3 == (LoadPhase::Listing { scan: ScanState { best: None } })
            &&& s4 == (LoadPhase::Done { outcome: Ok::<(), SyncError>(()) })
            &&& !(s3 is Downloading) && !load_phase_mutates_index(s3)
            &&& !(s4 is Downloading) && !load_phase_mutates_index(s4)
        }),
{
}

/// The key an upload publishes: `{prefix}/{epochMillis}/{partition}`.
pub open spec fn publish_key_spec(prefix: Seq<char>, epoch_millis: u128, partition: i64) -> Seq<
    char,
> {
    prefix + seq!['/'] + crate::text::dec_str(epoch_millis as nat) + seq!['/']
        + crate::text::int_str(partition as int)
}

/// Builds the key an upload publishes.
pub fn publish_key(prefix: &str, epoch_millis: u128, partition: i64) -> (r: String)
    ensures
        r@ == publish_key_spec(prefix@, epoch_millis, partition),
{
    let epoch_part = crate::text::u128_to_dec(epoch_millis);
    let partition_part = crate::text::i64_to_dec(partition);
    let r = String::from_str(prefix).concat("/").concat(epoch_part.as_str()).concat("/").concat(
        partition_part.as_str(),
    );
    proof {
        reveal_strlit("/");
        assert(r@ =~= publish_key_spec(prefix@, epoch_millis, partition));
    }
    r
}

/// What the embedding host reports back to an upload session.
#[derive(Debug)]
pub enum UploadEvent {
    /// Both directories exist now.
    DirsReady,
    /// The reason the engine's validity check fails, `None` when the index
    /// is valid.
    Validity { fault: Option<String> },
    /// No stale archive remains.
    StaleArchiveRemoved,
    /// The index directory is packed into the archive.
    Packed,
    /// The wall clock, as milliseconds since the epoch.
    Clock { epoch_millis: u128 },
    /// The upload completed.
    Uploaded,
    /// The consumed archive was removed.
    ArchiveRemoved,
    /// The pending action could not be carried out.
    Failed { kind: FailureKind },
}

/// Where an upload session stands.  Each phase but `Done` has one pending
/// action.
#[derive(Debug)]
pub enum UploadPhase {
    /// Creating the two directories.
    EnsuringDirs,
    /// Waiting for the engine's validity verdict.
    CheckingValidity,
    /// Removing a stale archive.
    RemovingStale,
    /// Packing the index directory.
    Packing,
    /// Reading the wall clock for the publish epoch.
    ReadingClock,
    /// Uploading the archive under the key built from this epoch.
    Uploading { epoch_millis: u128 },
    /// Removing the consumed archive.
    RemovingArchive,
    /// The run is over.
    Done { outcome: Result<(), SyncError> },
}

/// The upload session's transition function.  An invalid index is a hard
/// stop with `ConsistencyError`, before any network phase; an upload never
/// repairs the index — no upload action clears or replaces it, so the index
/// directory is read-only throughout.  The publish epoch is whatever the
/// clock reports, so its monotonicity across uploads is the platform
/// clock's to keep.
pub open spec fn upload_step(phase: UploadPhase, event: UploadEvent) -> UploadPhase {
    match (phase, event) {
        (UploadPhase::Done { outcome }, _) => UploadPhase::Done { outcome },
        (_, UploadEvent::Failed { kind }) => UploadPhase::Done {
            outcome: Err(kind.to_error_spec()),
        },
        (UploadPhase::EnsuringDirs, UploadEvent::DirsReady) => UploadPhase::CheckingValidity,
        (UploadPhase::CheckingValidity, UploadEvent::Validity { fault }) => match fault {
            None => UploadPhase::RemovingStale,
            Some(reason) => UploadPhase::Done {
                outcome: Err(SyncError::ConsistencyError { reason }),
            },
        },
        (UploadPhase::RemovingStale, UploadEvent::StaleArchiveRemoved) => UploadPhase::Packing,
        (UploadPhase::Packing, UploadEvent::Packed) => UploadPhase::ReadingClock,
        (UploadPhase::ReadingClock, UploadEvent::Clock { epoch_millis }) => UploadPhase::Uploading {
            epoch_millis,
        },
        (UploadPhase::Uploading { .. }, UploadEvent::Uploaded) => UploadPhase::RemovingArchive,
        (UploadPhase::RemovingArchive, UploadEvent::ArchiveRemoved) => UploadPhase::Done {
            outcome: Ok(()),
        },
        (p, _) => p,
    }
}

/// Whether an upload phase's pending action touches the network.
pub open spec fn upload_phase_touches_network(phase: UploadPhase) -> bool {
    phase is Uploading
}

/// What the pending action of an upload session must look like.
pub open spec fn upload_action_matches(s: &UploadSession, r: Option<Action>) -> bool {
    match s.phase {
        UploadPhase::EnsuringDirs => {
            &&& r matches Some(Action::EnsureDirs { working_dir, index_dir })
            &&& working_dir@ == s.params.working_dir_spec()
            &&& index_dir@ == s.params.index_dir_spec()
        },
        UploadPhase::CheckingValidity => r matches Some(Action::QueryEngine),
        UploadPhase::RemovingStale => {
            &&& r matches Some(Action::RemoveStaleArchive { path })
            &&& path@ == s.params.tarball_path_spec()
        },
        UploadPhase::Packing => {
            &&& r matches Some(Action::PackArchive { index_dir, dest })
            &&& index_dir@ == s.params.index_dir_spec()
            &&& dest@ == s.params.tarball_path_spec()
        },
        UploadPhase::ReadingClock => r matches Some(Action::ReadClock),
        UploadPhase::Uploading { epoch_millis } => {
            &&& r matches Some(Action::Upload { bucket, key, src })
            &&& bucket@ == s.params.bucket@
            &&& key@ == publish_key_spec(s.params.key_prefix@, epoch_millis, s.params.partition)
            &&& src@ == s.params.tarball_path_spec()
        },
        UploadPhase::RemovingArchive => {
            &&& r matches Some(Action::RemoveArchive { path })
            &&& path@ == s.params.tarball_path_spec()
        },
        UploadPhase::Done { .. } => r is None,
    }
}

/// One run of the upload entry point.
pub struct UploadSession {
    /// The settings resolved from the configuration.
    pub params: SyncParams,
    /// Where the run stands.
    pub phase: UploadPhase,
}

impl UploadSession {
    /// Starts an upload run.  A missing required key fails with
    /// `ConfigError` here, before any action is issued.
    pub fn new(config: &StoreConfig) -> (r: Result<UploadSession, SyncError>)
        ensures
            r is Ok <==> config_complete(config),
            r matches Ok(s) ==> s.params.matches_config(config) && s.phase is EnsuringDirs,
            r matches Err(e) ==> e matches SyncError::ConfigError { key } && key@
                == first_missing_key(config),
    {
        let params = match resolve_params(config) {
            Ok(p) => p,
            Err(e) => {
                return Err(e);
            },
        };
        Ok(UploadSession { params, phase: UploadPhase::EnsuringDirs })
    }

    /// The pending action; `None` once the run is over.
    pub fn next_action(&self) -> (r: Option<Action>)
        ensures
            upload_action_matches(self, r),
    {
        match &self.phase {
            UploadPhase::EnsuringDirs => Some(
                Action::EnsureDirs {
                    working_dir: self.params.working_dir(),
                    index_dir: self.params.index_dir(),
                },
            ),
            UploadPhase::CheckingValidity => Some(Action::QueryEngine),
            UploadPhase::RemovingStale => Some(
                Action::RemoveStaleArchive { path: self.params.tarball_path() },
            ),
            UploadPhase::Packing => Some(
                Action::PackArchive {
                    index_dir: self.params.index_dir(),
                    dest: self.params.tarball_path(),
                },
            ),
            UploadPhase::ReadingClock => Some(Action::ReadClock),
            UploadPhase::Uploading { epoch_millis } => Some(
                Action::Upload {
                    bucket: self.params.bucket.clone(),
                    key: publish_key(
                        self.params.key_prefix.as_str(),
                        *epoch_millis,
                        self.params.partition,
                    ),
                    src: self.params.tarball_path(),
                },
            ),
            UploadPhase::RemovingArchive => Some(
                Action::RemoveArchive { path: self.params.tarball_path() },
            ),
            UploadPhase::Done { .. } => None,
        }
    }

    /// Consumes the host's report of the pending action and moves the run
    /// forward, exactly as [`upload_step`] says.
    pub fn on_event(&mut self, event: UploadEvent)
        ensures
            final(self).params == old(self).params,
            final(self).phase == upload_step(old(self).phase, event),
    {
        let mut ph = UploadPhase::EnsuringDirs;
        core::mem::swap(&mut ph, &mut self.phase);
        match (ph, event) {
            (UploadPhase::Done { outcome }, _) => {
                self.phase = UploadPhase::Done { outcome };
            },
            (_, UploadEvent::Failed { kind }) => {
                self.phase = UploadPhase::Done { outcome: Err(kind.to_error()) };
            },
            (UploadPhase::EnsuringDirs, UploadEvent::DirsReady) => {
                self.phase = UploadPhase::CheckingValidity;
            },
            (UploadPhase::CheckingValidity, UploadEvent::Validity { fault }) => {
                match fault {
                    None => {
                        self.phase = UploadPhase::RemovingStale;
                    },
                    Some(reason) => {
                        self.phase = UploadPhase::Done {
                            outcome: Err(SyncError::ConsistencyError { reason }),
                        };
                    },
                }
            },
            (UploadPhase::RemovingStale, UploadEvent::StaleArchiveRemoved) => {
                self.phase = UploadPhase::Packing;
            },
            (UploadPhase::Packing, UploadEvent::Packed) => {
                self.phase = UploadPhase::ReadingClock;
            },
            (UploadPhase::ReadingClock, UploadEvent::Clock { epoch_millis }) => {
                self.phase = UploadPhase::Uploading { epoch_millis };
            },
            (UploadPhase::Uploading { epoch_millis: _ }, UploadEvent::Uploaded) => {
                self.phase = UploadPhase::RemovingArchive;
            },
            (UploadPhase::RemovingArchive, UploadEvent::ArchiveRemoved) => {
                self.phase = UploadPhase::Done { outcome: Ok(()) };
            },
            (p, _) => {
                self.phase = p;
            },
        }
    }

    /// The run's outcome, once it is over.
    pub fn outcome(&self) -> (r: Option<&Result<(), SyncError>>)
        ensures
            match self.phase {
                UploadPhase::Done { outcome } => r matches Some(o) && *o == outcome,
                _ => r is None,
            },
    {
        match &self.phase {
            UploadPhase::Done { outcome } => Some(outcome),
            _ => None,
        }
    }
}

/// An upload against an index the engine reports invalid stops with
/// `ConsistencyError` carrying the engine's reason: no phase it reaches
/// touches the network, and the archive phases are never reached either.
/// [`UploadSession::new`] yields exactly this starting phase whenever the
/// configuration is complete, so every upload run that begins is covered.
pub proof fn lemma_upload_invalid_index_no_network(reason: String)
    ensures
        ({
            let s0 = UploadPhase::EnsuringDirs;
            let s1 = upload_step(s0, UploadEvent::DirsReady);
            let s2 = upload_step(s1, UploadEvent::Validity { fault: Some(reason) });
            &&& s1 == UploadPhase::CheckingValidity
            &&& s2 == (UploadPhase::Done {
                outcome: Err::<(), SyncError>(SyncError::ConsistencyError { reason }),
            })
            &&& !upload_phase_touches_network(s0)
            &&& !upload_phase_touches_network(s1)
            &&& !upload_phase_touches_network(s2)
            &&& !(s0 is Packing) && !(s1 is Packing) && !(s2 is Packing)
        }),
{
}

/// The key an upload publishes reads back, for its own partition, as a
/// snapshot with exactly the published epoch, whatever the prefix holds —
/// so a later load's locator sees every published snapshot under its true
/// recency.
pub proof fn lemma_published_key_reads_back(prefix: Seq<char>, epoch_millis: u128, partition: i64)
    ensures
        crate::remote_key::read_key_spec(
            publish_key_spec(prefix, epoch_millis, partition),
            partition,
        ) == (crate::remote_key::KeyReading::Snapshot { epoch_millis }),
{
    let e = crate::text::dec_str(epoch_millis as nat);
    let p = crate::text::int_str(partition as int);
    let left = prefix + seq!['/'] + e;
    let key = publish_key_spec(prefix, epoch_millis, partition);
    crate::text::lemma_dec_str_val(epoch_millis as nat);
    if partition < 0 {
        crate::text::lemma_dec_str_val((-(partition as int)) as nat);
        assert(p[0] == '-');
        assert forall|i: int| 0 <= i < p.len() implies #[trigger] p[i] != '/' by {
            if i > 0 {
                assert(p[i] == crate::text::dec_str((-(partition as int)) as nat)[i - 1]);
                assert(crate::text::is_digit_char(p[i]));
            }
        }
    } else {
        crate::text::lemma_dec_str_val(partition as nat);
        assert forall|i: int| 0 <= i < p.len() implies #[trigger] p[i] != '/' by {
            assert(crate::text::is_digit_char(p[i]));
        }
    }
    assert forall|i: int| 0 <= i < e.len() implies #[trigger] e[i] != '/' by {
        assert(crate::text::is_digit_char(e[i]));
    }
    crate::text::lemma_split_no_sep(e, '/');
    crate::text::lemma_split_no_sep(p, '/');
    crate::text::lemma_split_append(prefix, e, '/');
    assert(key =~= left + seq!['/'] + p);
    crate::text::lemma_split_append(left, p, '/');
    crate::text::lemma_split_len(prefix, '/');
    let segs = crate::text::split_spec(key, '/');
    assert(segs == crate::text::split_spec(prefix, '/') + seq![e] + seq![p]);
    assert(segs.len() >= 3);
    assert(segs.last() == p);
    assert(segs[segs.len() - 2] == e);
    crate::text::lemma_parse_i64_of_int_str(partition);
    crate::text::lemma_parse_u128_of_dec_str(epoch_millis);
}

} // verus!
