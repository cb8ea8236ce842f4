//! Requests to the daemon and its responses.

use crate::config::{ConfigReport, FileConfig};
use crate::policy::{EffectivePolicy, GlobalPolicySnapshot, PolicyFieldOp, WorkspacePolicy};
use crate::retention::CleanupRetention;
use crate::snapshot::{
    GuardedCheckpointEvidenceV2, GuardedRollbackEvidenceV2, SnapshotEntry, SnapshotSummary,
    WorkspaceGenerationTokenV2,
};
use vstd::prelude::*;

verus! {

/// Wire protocol version used by the guarded checkpoint API.
pub const GUARDED_CHECKPOINT_PROTOCOL_VERSION_V2: u16 = 2;

/// Snapshot count of a workspace beyond which an advisory is given.
pub const ADVISORY_SNAPSHOT_LIMIT: u32 = 1000;

/// A request to the daemon.
#[derive(PartialEq)]
#[allow(inconsistent_fields)]
pub enum Request {
    Init { workspace: String },
    Checkpoint {
        workspace: String,
        id: String,
        message: Option<String>,
        metadata: Option<String>,
        pin: bool,
    },
    Rollback { workspace: String, to: Option<String>, num_ancestors: Option<u32> },
    Delete { workspace: Option<String>, snapshot: String, force: bool },
    List { workspace: Option<String>, format: Option<String> },
    Diff { workspace: String, from: String, to: Option<String> },
    Status { workspace: Option<String> },
    Cleanup { workspace: String, keep: Option<u32> },
    /// Query the current daemon configuration.
    Config,
    /// Reload the configuration file and every workspace's policy.
    ReloadConfig,
    /// Reload the configuration file only.
    ReloadGlobalConfig,
    /// Reload a single workspace's policy.
    ReloadWorkspacePolicy { workspace: String },
    /// The global configuration and the number of workspaces with overrides.
    ConfigOverview,
    /// Turn a workspace back into a normal directory.
    Recover { workspace: String },
    /// Aggregated health metrics.
    HealthAdvisory,
    /// Read a workspace's policy.
    GetWorkspacePolicy { workspace: String },
    /// Drop a workspace's policy override.
    ResetWorkspacePolicy { workspace: String },
    /// Change fields of a workspace's policy override.
    PatchWorkspacePolicy {
        workspace: String,
        auto_cleanup: PolicyFieldOp<bool>,
        auto_cleanup_keep: PolicyFieldOp<CleanupRetention>,
    },
    RollbackPreview { workspace: String, to: Option<String>, num_ancestors: Option<u32> },
    /// Resolve the stable identity of a registered workspace path.
    WorkspaceIdentityV2 { registration_path: String },
    /// Create a checkpoint guarded by workspace generation and operation identity.
    GuardedCheckpointV2 {
        ws_id: String,
        expected_generation: WorkspaceGenerationTokenV2,
        checkpoint_id: String,
        operation_digest: [u8; 32],
        message: Option<String>,
        metadata: Option<String>,
        pin: bool,
    },
    /// Query the evidence of a guarded checkpoint operation.
    CheckpointEvidenceV2 {
        ws_id: String,
        expected_generation: WorkspaceGenerationTokenV2,
        checkpoint_id: String,
        operation_digest: [u8; 32],
    },
    /// Preview an exact rollback target.
    GuardedRollbackPreviewV2 {
        registered_path: String,
        ws_id: String,
        expected_generation: WorkspaceGenerationTokenV2,
        target_snapshot_id: String,
    },
    /// Revalidate a preview and roll back to its exact target.
    GuardedRollbackV2 {
        registered_path: String,
        ws_id: String,
        expected_generation: WorkspaceGenerationTokenV2,
        target_snapshot_id: String,
        expected_diff_digest: [u8; 32],
        operation_id: String,
        operation_digest: [u8; 32],
    },
    /// Query the evidence of a guarded rollback operation.
    GuardedRollbackEvidenceV2 {
        ws_id: String,
        operation_id: String,
        operation_digest: [u8; 32],
    },
    /// Remove a registration only when its live subvolume is missing.
    Unregister { workspace: String },
    /// Resolve recovery's target and deletion scope.
    RecoverPreview { workspace: String },
    /// Recover only if the preview still describes the same target.
    RecoverConfirmed { preview: RecoveryPreview },
    /// Read a byte-bounded page ordered by creation time, workspace ID, and snapshot ID.
    ListPage { workspace: Option<String>, limit: u32, cursor: Option<String> },
}

/// A response of the daemon.
#[derive(PartialEq)]
#[allow(inconsistent_fields)]
pub enum Response {
    InitOk { ws_id: String },
    CheckpointOk { snapshot_id: String },
    RollbackOk { from: String, to: String },
    DeleteOk { target: String },
    Error { code: ErrorCode, message: String },
    ListOk { snapshots: Vec<SnapshotEntry> },
    DiffOk { changes: Vec<DiffEntry> },
    StatusOk { report: StatusReport },
    CleanupOk { removed: Vec<String> },
    ConfigOk { config: ConfigReport },
    /// Reply to a reload, with the configuration now in force and, where the reload read the
    /// configuration file, what it holds.
    ReloadConfigOk { config: ConfigReport, file: Option<FileConfig> },
    CheckpointSkipped { reason: String },
    RecoverOk { workspace: String },
    HealthAdvisoryOk {
        /// Workspaces with more snapshots than `ADVISORY_SNAPSHOT_LIMIT`.
        over_limit_workspace_count: u32,
        /// Zero where the usage is not available.
        fs_total_bytes: u64,
        fs_used_bytes: u64,
    },
    /// The policy in force, the workspace's override, and the global settings.
    WorkspacePolicyOk {
        ws_id: String,
        effective: EffectivePolicy,
        local: WorkspacePolicy,
        global: GlobalPolicySnapshot,
    },
    ConfigOverviewOk { config: ConfigReport, ws_total: usize, ws_with_override: usize },
    RollbackPreviewOk { to: String, changes: Vec<DiffEntry> },
    WorkspaceIdentityV2Ok {
        /// Always `GUARDED_CHECKPOINT_PROTOCOL_VERSION_V2`.
        protocol_version: u16,
        ws_id: String,
        registered_path: String,
        generation: WorkspaceGenerationTokenV2,
    },
    /// Evidence that a guarded checkpoint took effect or was skipped.
    GuardedCheckpointV2Ok { evidence: GuardedCheckpointEvidenceV2 },
    /// Evidence lookup; absence is `None`, never a rejection.
    CheckpointEvidenceV2Ok { evidence: Option<GuardedCheckpointEvidenceV2> },
    /// A guarded request rejected without effect.
    GuardedCheckpointV2Rejected { code: GuardedCheckpointRejectionCodeV2, message: String },
    GuardedRollbackPreviewV2Ok {
        protocol_version: u16,
        registered_path: String,
        ws_id: String,
        generation: WorkspaceGenerationTokenV2,
        target_snapshot_id: String,
        diff_digest: [u8; 32],
        changes: Vec<DiffEntry>,
        caller_uid: u32,
    },
    GuardedRollbackV2Ok { evidence: GuardedRollbackEvidenceV2 },
    GuardedRollbackV2Uncertain { evidence: GuardedRollbackEvidenceV2 },
    GuardedRollbackEvidenceV2Ok { evidence: Option<GuardedRollbackEvidenceV2> },
    GuardedRollbackV2Rejected { code: GuardedRollbackRejectionCodeV2, message: String },
    /// Recovery succeeded while additional user data remains for inspection.
    RecoverWithWarning { workspace: String, warning: String },
    /// Registration removed without restoring data or deleting snapshots.
    UnregisterOk { workspace: String, retained_paths: Vec<String> },
    RecoverPreviewOk { preview: RecoveryPreview },
    /// A live page, not a frozen view of the index across requests.
    ListPageOk { snapshots: Vec<SnapshotEntry>, next_cursor: Option<String> },
    /// A page of one entry too large to be sent in full.
    ListPageSummaryOk { snapshot: SnapshotSummary, next_cursor: Option<String> },
}

/// Recovery target resolved by the daemon.
#[derive(Debug, PartialEq, Eq)]
pub struct RecoveryPreview {
    /// Registered workspace ID, or none for an interrupted, unregistered init.
    pub ws_id: Option<String>,
    /// User-visible restoration destination.
    pub registration_path: String,
    /// Number of on-disk snapshot directories that recovery will delete.
    pub snapshot_count: u32,
    /// Fingerprint of the target and snapshot set.
    pub confirmation_digest: [u8; 32],
}

/// Classes of errors.
#[derive(Clone, Copy, Debug, PartialEq, Eq, Structural)]
pub enum ErrorCode {
    WorkspaceNotFound,
    SnapshotNotFound,
    AlreadyInitialized,
    BtrfsError,
    IoError,
    InvalidPath,
    ConfirmationRequired,
    InternalError,
    SnapshotAlreadyExists,
    WriteLockConflict,
    DiskSpaceInsufficient,
    CwdOccupied,
    CwdScanFailed,
    /// A paginated list request has an unsupported entry limit.
    InvalidListRequest,
    /// A list cursor is malformed or belongs to a different query scope.
    InvalidListCursor,
    /// One snapshot and its continuation cannot fit in an IPC frame.
    ListEntryTooLarge,
}

/// Reasons a guarded checkpoint request is rejected without effect.
#[derive(Clone, Copy, Debug, PartialEq, Eq, Structural)]
pub enum GuardedCheckpointRejectionCodeV2 {
    DaemonNotReady,
    PeerCredentialsUnavailable,
    InvalidRegistrationPath,
    InvalidWorkspaceId,
    InvalidCheckpointId,
    InvalidMetadata,
    WorkspaceNotFound,
    GenerationMismatch,
    OperationConflict,
    WriteLockConflict,
    CallerMismatch,
    EvidenceCapacityReached,
}

/// Reasons a guarded rollback is rejected without effect.
#[derive(Clone, Copy, Debug, PartialEq, Eq, Structural)]
pub enum GuardedRollbackRejectionCodeV2 {
    DaemonNotReady,
    PeerCredentialsUnavailable,
    InvalidRegistrationPath,
    InvalidWorkspaceId,
    InvalidSnapshotId,
    InvalidOperationId,
    WorkspaceNotFound,
    SnapshotNotFound,
    GenerationMismatch,
    DiffMismatch,
    OperationConflict,
    WriteLockConflict,
    CallerMismatch,
    EvidenceCapacityReached,
    CwdOccupied,
    CwdScanFailed,
}

/// Kinds of change between two snapshots.
#[derive(Clone, Copy, Debug, PartialEq, Eq, Structural)]
pub enum ChangeType {
    Added,
    Modified,
    Deleted,
    Renamed,
}

/// A single file change.
#[derive(Debug, PartialEq, Eq)]
pub struct DiffEntry {
    pub path: String,
    pub change_type: ChangeType,
    pub detail: Option<String>,
}

/// Summary of a single workspace.
#[derive(Debug, PartialEq, Eq)]
pub struct WorkspaceInfo {
    pub ws_id: String,
    pub path: String,
    pub snapshot_count: u32,
}

/// Status of the daemon and its workspaces.
#[derive(Debug, PartialEq, Eq)]
pub struct StatusReport {
    pub uptime_secs: u64,
    pub workspaces: Vec<WorkspaceInfo>,
    pub fs_total_bytes: u64,
    pub fs_used_bytes: u64,
}

impl Response {
    /// Whether this is the error `code` with that message.
    pub open spec fn is_error(self, code: ErrorCode, message: Seq<char>) -> bool {
        self matches Response::Error { code: c, message: m } && c == code && m@ == message
    }

    /// Whether this rejects a guarded checkpoint with that code and message.
    pub open spec fn is_rejection(
        self,
        code: GuardedCheckpointRejectionCodeV2,
        message: Seq<char>,
    ) -> bool {
        self matches Response::GuardedCheckpointV2Rejected { code: c, message: m } && c == code && m@
            == message
    }
}

/// Builds an error response.
pub fn error_resp(code: ErrorCode, msg: &str) -> (r: Response)
    ensures
        r.is_error(code, msg@),
{
    Response::Error { code, message: msg.to_owned() }
}

} // verus!
