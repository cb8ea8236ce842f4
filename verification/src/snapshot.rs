//! Snapshots and the records kept about them.

use crate::calendar::{compact_stamp, format_stamp, format_time, has_date, in_calendar, rfc3339};
use crate::text_list::{copy_opt, copy_texts, opt_text, texts};
use vstd::prelude::*;

verus! {

/// Copying a value without changing what it stands for.
pub trait Duplicate: View + Sized {
    /// A copy with the same view.
    fn duplicate(&self) -> (r: Self)
        ensures
            r@ == self@,
    ;
}

/// A point in time: whole seconds since the Unix epoch, and nanoseconds within the second.
pub type TimeView = (i64, u32);

/// Whether time `a` is strictly earlier than `b`: by seconds, and then by nanoseconds.
pub open spec fn earlier(a: TimeView, b: TimeView) -> bool {
    a.0 < b.0 || (a.0 == b.0 && a.1 < b.1)
}

/// A point in time that a calendar date can be given for.
#[derive(Clone, Copy, Debug, PartialEq, Eq, PartialOrd, Ord, Hash)]
pub struct Timestamp {
    secs: i64,
    nanos: u32,
}

impl View for Timestamp {
    type V = TimeView;

    closed spec fn view(&self) -> TimeView {
        (self.secs, self.nanos)
    }
}

impl Timestamp {
    #[verifier::type_invariant]
    spec fn wf(self) -> bool {
        has_date(self.secs, self.nanos)
    }

    /// The point in time of that many seconds and nanoseconds, where there is a calendar date
    /// for it.
    pub fn new(secs: i64, nanos: u32) -> (r: Option<Timestamp>)
        ensures
            match r {
                Some(t) => has_date(secs, nanos) && t@ == (secs, nanos),
                None => !has_date(secs, nanos),
            },
    {
        if in_calendar(secs, nanos) {
            Some(Timestamp { secs, nanos })
        } else {
            None
        }
    }

    /// The whole seconds.
    pub fn secs(&self) -> (r: i64)
        ensures
            r == self@.0,
    {
        self.secs
    }

    /// The nanoseconds within the second.
    pub fn nanos(&self) -> (r: u32)
        ensures
            r == self@.1,
    {
        self.nanos
    }

    /// Whether this time is strictly earlier than `other`.
    pub fn is_earlier(&self, other: &Timestamp) -> (r: bool)
        ensures
            r == earlier(self@, other@),
    {
        self.secs < other.secs || (self.secs == other.secs && self.nanos < other.nanos)
    }

    /// Whether this is the same time as `other`.
    pub fn same(&self, other: &Timestamp) -> (r: bool)
        ensures
            r == (self@ == other@),
    {
        self.secs == other.secs && self.nanos == other.nanos
    }

    /// The time in RFC 3339 format.
    pub fn to_rfc3339(&self) -> (r: String)
        ensures
            r@ == rfc3339(self@.0, self@.1),
    {
        proof {
            use_type_invariant(self);
        }
        format_time(self.secs, self.nanos)
    }

    /// The date and time in compact form with milliseconds.
    pub fn to_stamp(&self) -> (r: String)
        ensures
            r@ == compact_stamp(self@.0, self@.1),
    {
        proof {
            use_type_invariant(self);
        }
        format_stamp(self.secs, self.nanos)
    }
}

/// Opaque identity for one live writable-subvolume generation of a workspace.
#[derive(Clone, Copy, PartialEq, Eq, Hash)]
pub struct WorkspaceGenerationTokenV2 {
    bytes: [u8; 32],
}

impl View for WorkspaceGenerationTokenV2 {
    type V = Seq<u8>;

    closed spec fn view(&self) -> Seq<u8> {
        self.bytes@
    }
}

impl WorkspaceGenerationTokenV2 {
    /// Constructs a generation token from its fixed-width wire representation.
    pub fn from_bytes(bytes: [u8; 32]) -> (r: Self)
        ensures
            r@ == bytes@,
    {
        WorkspaceGenerationTokenV2 { bytes }
    }

    /// Borrows the fixed-width wire representation.
    pub fn as_bytes(&self) -> (r: &[u8; 32])
        ensures
            r@ == self@,
    {
        &self.bytes
    }

    /// Consumes the token and returns its fixed-width wire representation.
    pub fn into_bytes(self) -> (r: [u8; 32])
        ensures
            r@ == self@,
    {
        self.bytes
    }

    /// How the token shows in diagnostics: without its bytes.
    pub fn debug_text(&self) -> (r: String)
        ensures
            r@ == "WorkspaceGenerationTokenV2(<opaque>)"@,
    {
        "WorkspaceGenerationTokenV2(<opaque>)".to_owned()
    }

    /// Whether two tokens are the same.
    pub fn same(&self, other: &Self) -> (r: bool)
        ensures
            r == (self@ == other@),
    {
        same_bytes(&self.bytes, &other.bytes)
    }
}

/// Whether two 32-byte values are the same.
pub fn same_bytes(a: &[u8; 32], b: &[u8; 32]) -> (r: bool)
    ensures
        r == (a@ == b@),
{
    let mut i: usize = 0;
    while i < 32
        invariant
            i <= 32,
            forall|j: int| 0 <= j < i ==> a@[j] == b@[j],
        decreases 32 - i,
    {
        if a[i] != b[i] {
            return false;
        }
        i = i + 1;
    }
    proof {
        assert(a@ =~= b@);
    }
    true
}

/// Outcome durably bound to a guarded checkpoint operation.
#[derive(PartialEq, Eq)]
pub enum GuardedCheckpointOutcomeV2 {
    /// The backend created this snapshot.
    Created { snapshot_id: String },
    /// Backend creation was intentionally skipped.
    Skipped { reason: String },
}

/// What an outcome says.
pub enum OutcomeView {
    Created { snapshot_id: Seq<char> },
    Skipped { reason: Seq<char> },
}

impl View for GuardedCheckpointOutcomeV2 {
    type V = OutcomeView;

    open spec fn view(&self) -> OutcomeView {
        match self {
            GuardedCheckpointOutcomeV2::Created { snapshot_id } => OutcomeView::Created {
                snapshot_id: snapshot_id@,
            },
            GuardedCheckpointOutcomeV2::Skipped { reason } => OutcomeView::Skipped {
                reason: reason@,
            },
        }
    }
}

impl Duplicate for GuardedCheckpointOutcomeV2 {
    fn duplicate(&self) -> (r: Self) {
        match self {
            GuardedCheckpointOutcomeV2::Created { snapshot_id } => {
                GuardedCheckpointOutcomeV2::Created { snapshot_id: snapshot_id.clone() }
            },
            GuardedCheckpointOutcomeV2::Skipped { reason } => {
                GuardedCheckpointOutcomeV2::Skipped { reason: reason.clone() }
            },
        }
    }
}

/// Durable proof binding a caller operation to its workspace and checkpoint outcome.
#[derive(PartialEq, Eq)]
pub struct GuardedCheckpointEvidenceV2 {
    /// Exact workspace identifier used for the operation.
    pub ws_id: String,
    /// Verbatim user-facing path stored in the registration.
    pub registered_path: String,
    /// Live writable-subvolume generation checked before backend execution.
    pub generation: WorkspaceGenerationTokenV2,
    /// Snapshot identifier reserved while this evidence remains retained.
    pub checkpoint_id: String,
    /// Caller-defined digest binding the higher-level operation identity.
    pub operation_digest: [u8; 32],
    /// Effective UID obtained from the Unix peer credentials.
    pub caller_uid: u32,
    /// Durable checkpoint outcome.
    pub outcome: GuardedCheckpointOutcomeV2,
}

/// What a checkpoint evidence record says.
pub struct EvidenceView {
    pub ws_id: Seq<char>,
    pub registered_path: Seq<char>,
    pub generation: Seq<u8>,
    pub checkpoint_id: Seq<char>,
    pub operation_digest: Seq<u8>,
    pub caller_uid: u32,
    pub outcome: OutcomeView,
}

impl View for GuardedCheckpointEvidenceV2 {
    type V = EvidenceView;

    open spec fn view(&self) -> EvidenceView {
        EvidenceView {
            ws_id: self.ws_id@,
            registered_path: self.registered_path@,
            generation: self.generation@,
            checkpoint_id: self.checkpoint_id@,
            operation_digest: self.operation_digest@,
            caller_uid: self.caller_uid,
            outcome: self.outcome@,
        }
    }
}

impl Duplicate for GuardedCheckpointEvidenceV2 {
    fn duplicate(&self) -> (r: Self) {
        GuardedCheckpointEvidenceV2 {
            ws_id: self.ws_id.clone(),
            registered_path: self.registered_path.clone(),
            generation: self.generation,
            checkpoint_id: self.checkpoint_id.clone(),
            operation_digest: self.operation_digest,
            caller_uid: self.caller_uid,
            outcome: self.outcome.duplicate(),
        }
    }
}

/// Outcome durably bound to one guarded rollback operation.
#[derive(PartialEq, Eq)]
pub enum GuardedRollbackOutcomeV2 {
    /// The operation intent is durable and backend execution may have started.
    Started,
    /// The backend and index update both completed durably.
    Succeeded {
        /// Identity of the new writable workspace generation.
        resulting_generation: WorkspaceGenerationTokenV2,
    },
    /// Backend execution may have taken effect, but completion could not be proven.
    Unknown {
        /// Actionable diagnostic retained with the evidence.
        reason: String,
    },
}

/// Durable proof binding a caller operation to an exact guarded rollback.
#[derive(PartialEq, Eq)]
pub struct GuardedRollbackEvidenceV2 {
    /// Exact workspace identifier used for the operation.
    pub ws_id: String,
    /// Verbatim path stored in the registration and supplied by the caller.
    pub registered_path: String,
    /// Live writable-subvolume generation that was previewed and revalidated.
    pub expected_generation: WorkspaceGenerationTokenV2,
    /// Full snapshot identifier; prefixes are never accepted.
    pub target_snapshot_id: String,
    /// Digest of the live diff recomputed immediately before rollback.
    pub expected_diff_digest: [u8; 32],
    /// Caller-defined idempotency identifier.
    pub operation_id: String,
    /// Caller-defined digest binding the higher-level operation identity.
    pub operation_digest: [u8; 32],
    /// Effective UID obtained from Unix peer credentials.
    pub caller_uid: u32,
    /// Durable rollback outcome.
    pub outcome: GuardedRollbackOutcomeV2,
}

impl View for GuardedRollbackEvidenceV2 {
    type V = GuardedRollbackEvidenceV2;

    open spec fn view(&self) -> GuardedRollbackEvidenceV2 {
        *self
    }
}

impl Duplicate for GuardedRollbackEvidenceV2 {
    fn duplicate(&self) -> (r: Self) {
        GuardedRollbackEvidenceV2 {
            ws_id: self.ws_id.clone(),
            registered_path: self.registered_path.clone(),
            expected_generation: self.expected_generation,
            target_snapshot_id: self.target_snapshot_id.clone(),
            expected_diff_digest: self.expected_diff_digest,
            operation_id: self.operation_id.clone(),
            operation_digest: self.operation_digest,
            caller_uid: self.caller_uid,
            outcome: match &self.outcome {
                GuardedRollbackOutcomeV2::Started => GuardedRollbackOutcomeV2::Started,
                GuardedRollbackOutcomeV2::Succeeded { resulting_generation } => {
                    GuardedRollbackOutcomeV2::Succeeded {
                        resulting_generation: *resulting_generation,
                    }
                },
                GuardedRollbackOutcomeV2::Unknown { reason } => {
                    GuardedRollbackOutcomeV2::Unknown { reason: reason.clone() }
                },
            },
        }
    }
}

/// What is recorded about one snapshot.
#[derive(Debug, PartialEq)]
pub struct SnapshotMeta {
    pub message: Option<String>,
    /// Caller metadata, as JSON text.
    pub metadata: Option<String>,
    pub pinned: bool,
    pub created_at: Timestamp,
    /// Whether the subvolume was found missing from the file system.
    pub missing: bool,
    pub parent_id: Option<String>,
    pub child_ids: Vec<String>,
}

/// What a snapshot record says.
pub struct MetaView {
    pub message: Option<Seq<char>>,
    pub metadata: Option<Seq<char>>,
    pub pinned: bool,
    pub created_at: TimeView,
    pub missing: bool,
    pub parent_id: Option<Seq<char>>,
    pub child_ids: Seq<Seq<char>>,
}

impl View for SnapshotMeta {
    type V = MetaView;

    open spec fn view(&self) -> MetaView {
        MetaView {
            message: opt_text(self.message),
            metadata: opt_text(self.metadata),
            pinned: self.pinned,
            created_at: self.created_at@,
            missing: self.missing,
            parent_id: opt_text(self.parent_id),
            child_ids: texts(self.child_ids@),
        }
    }
}

impl Duplicate for SnapshotMeta {
    fn duplicate(&self) -> (r: Self) {
        SnapshotMeta {
            message: copy_opt(&self.message),
            metadata: copy_opt(&self.metadata),
            pinned: self.pinned,
            created_at: self.created_at,
            missing: self.missing,
            parent_id: copy_opt(&self.parent_id),
            child_ids: copy_texts(&self.child_ids),
        }
    }
}

/// A snapshot entry combining its ID with metadata.
#[derive(Debug, PartialEq)]
pub struct SnapshotEntry {
    pub id: String,
    pub workspace: String,
    pub meta: SnapshotMeta,
}

/// What a snapshot entry says.
pub struct EntryView {
    pub id: Seq<char>,
    pub workspace: Seq<char>,
    pub meta: MetaView,
}

impl View for SnapshotEntry {
    type V = EntryView;

    open spec fn view(&self) -> EntryView {
        EntryView { id: self.id@, workspace: self.workspace@, meta: self.meta@ }
    }
}

/// The part of a snapshot record that does not grow with caller data.
#[derive(Clone, Copy, Debug, PartialEq, Eq)]
pub struct SnapshotSummaryMeta {
    pub pinned: bool,
    pub created_at: Timestamp,
    pub missing: bool,
}

/// A snapshot entry reduced to its identity and flags.
#[derive(Debug, PartialEq, Eq)]
pub struct SnapshotSummary {
    pub id: String,
    pub workspace: String,
    pub meta: SnapshotSummaryMeta,
}

} // verus!
