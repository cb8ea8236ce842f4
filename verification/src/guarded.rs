//! Checkpoints guarded by workspace generation and operation identity.
//!
//! A guarded checkpoint alternates decisions, made here, with work on the file system. Each
//! step takes what the work before it gave, and says what to do next or what to answer.

use crate::config::joined;
use crate::ids::{
    checkpoint_id_fault, validate_checkpoint_id_v2, validate_workspace_id_v2, workspace_id_fault,
    LIVE_CHILD,
};
use crate::index::{parent_of, IndexView, Nodes, SnapshotIndex};
use crate::json::{json_reading, read_json};
use crate::lineage::{linked, ranked, record_linked};
use crate::message::{
    error_resp, ErrorCode, GuardedCheckpointRejectionCodeV2, Response,
    GUARDED_CHECKPOINT_PROTOCOL_VERSION_V2,
};
use crate::paths::{registration_path_fault, validate_registration_path};
use crate::registry::{RegistryView, WorkspaceState, WorkspaceView};
use crate::snapshot::{
    same_bytes, Duplicate, EvidenceView, GuardedCheckpointEvidenceV2, GuardedCheckpointOutcomeV2,
    MetaView, OutcomeView, SnapshotMeta, TimeView, Timestamp, WorkspaceGenerationTokenV2,
};
use crate::state::DaemonState;
use crate::text::str_eq;
use crate::text_list::{copy_opt, opt_text, texts, without, without_text};
use vstd::prelude::*;

verus! {

/// Maximum guarded-operation evidence records retained for one workspace.
pub const GUARDED_CHECKPOINT_EVIDENCE_LIMIT_V2: usize = 256;

/// A request for a guarded checkpoint.
pub struct GuardedRequest {
    pub ws_id: String,
    pub expected_generation: WorkspaceGenerationTokenV2,
    pub checkpoint_id: String,
    pub operation_digest: [u8; 32],
    pub message: Option<String>,
    pub metadata: Option<String>,
    pub pin: bool,
}

/// Builds a rejection.
pub fn rejected(code: GuardedCheckpointRejectionCodeV2, message: &str) -> (r: Response)
    ensures
        r.is_rejection(code, message@),
{
    Response::GuardedCheckpointV2Rejected { code, message: message.to_owned() }
}

/// The message about a workspace that is not registered.
pub open spec fn unregistered_message(workspace: Seq<char>) -> Seq<char> {
    "workspace is not registered: "@ + workspace
}

/// Whether a response says that a workspace is not registered.
pub open spec fn is_unregistered(r: Response, workspace: Seq<char>) -> bool {
    r.is_rejection(
        GuardedCheckpointRejectionCodeV2::WorkspaceNotFound,
        unregistered_message(workspace),
    )
}

/// The rejection of a workspace that is not registered.
pub fn workspace_not_found(workspace: &str) -> (r: Response)
    ensures
        is_unregistered(r, workspace@),
{
    rejected(
        GuardedCheckpointRejectionCodeV2::WorkspaceNotFound,
        joined("workspace is not registered: ", workspace).as_str(),
    )
}

/// The error about an operation that may have taken effect: a rejection would promise that it
/// has not.
pub fn backend_effect_error(message: &str) -> (r: Response)
    ensures
        r.is_error(ErrorCode::InternalError, message@),
{
    error_resp(ErrorCode::InternalError, message)
}

/// The rejection of a request for reasons that do not depend on the daemon's state.
pub open spec fn request_rejection(
    caller_uid: Option<u32>,
    uid_message: Seq<char>,
    ws_id: Seq<char>,
    checkpoint_id: Seq<char>,
    metadata_fault: Option<Seq<char>>,
) -> Option<(GuardedCheckpointRejectionCodeV2, Seq<char>)> {
    if caller_uid is None {
        Some((GuardedCheckpointRejectionCodeV2::PeerCredentialsUnavailable, uid_message))
    } else if workspace_id_fault(ws_id) is Some {
        Some(
            (GuardedCheckpointRejectionCodeV2::InvalidWorkspaceId, workspace_id_fault(ws_id)->0),
        )
    } else if checkpoint_id_fault(checkpoint_id) is Some {
        Some(
            (
                GuardedCheckpointRejectionCodeV2::InvalidCheckpointId,
                checkpoint_id_fault(checkpoint_id)->0,
            ),
        )
    } else if metadata_fault is Some {
        Some(
            (
                GuardedCheckpointRejectionCodeV2::InvalidMetadata,
                "metadata is not valid JSON: "@ + metadata_fault->0,
            ),
        )
    } else {
        None
    }
}

/// Checks what a request says, given why its metadata is no JSON, if it is none.
pub fn admit_request(
    caller_uid: Option<u32>,
    uid_message: &str,
    ws_id: &str,
    checkpoint_id: &str,
    metadata_fault: &Option<String>,
) -> (r: Result<u32, Response>)
    ensures
        match r {
            Ok(uid) => request_rejection(
                caller_uid,
                uid_message@,
                ws_id@,
                checkpoint_id@,
                opt_text(*metadata_fault),
            ) is None && caller_uid == Some(uid),
            Err(e) => request_rejection(
                caller_uid,
                uid_message@,
                ws_id@,
                checkpoint_id@,
                opt_text(*metadata_fault),
            ) matches Some(f) && e.is_rejection(f.0, f.1),
        },
{
    let uid: u32 = match caller_uid {
        Some(uid) => uid,
        None => {
            return Err(
                rejected(
                    GuardedCheckpointRejectionCodeV2::PeerCredentialsUnavailable,
                    uid_message,
                ),
            );
        },
    };
    if let Err(m) = validate_workspace_id_v2(ws_id) {
        return Err(
            rejected(GuardedCheckpointRejectionCodeV2::InvalidWorkspaceId, m.as_str()),
        );
    }
    if let Err(m) = validate_checkpoint_id_v2(checkpoint_id) {
        return Err(
            rejected(GuardedCheckpointRejectionCodeV2::InvalidCheckpointId, m.as_str()),
        );
    }
    if let Some(e) = metadata_fault {
        return Err(
            rejected(
                GuardedCheckpointRejectionCodeV2::InvalidMetadata,
                joined("metadata is not valid JSON: ", e.as_str()).as_str(),
            ),
        );
    }
    Ok(uid)
}

/// Why the metadata of a request is no JSON, if there is some and it is none.
pub open spec fn metadata_fault(metadata: Option<Seq<char>>) -> Option<Seq<char>> {
    match metadata {
        Some(text) => match json_reading(text) {
            Ok(_) => None,
            Err(e) => Some(e),
        },
        None => None,
    }
}

/// The metadata of a request as it is recorded: the compact text of its JSON value.
pub open spec fn recorded_metadata(metadata: Option<Seq<char>>) -> Option<Seq<char>> {
    match metadata {
        Some(text) => match json_reading(text) {
            Ok(v) => Some(v),
            Err(_) => None,
        },
        None => None,
    }
}

/// What is known of a request that was let in.
pub struct Admission {
    /// The caller.
    pub uid: u32,
    /// The path that the workspace is registered at.
    pub registered_path: String,
    /// The metadata to record.
    pub metadata: Option<String>,
}

/// First step: checks the request and finds the workspace. The registration of the path that
/// comes back is to be probed.
pub fn start_checkpoint(state: &DaemonState, caller_uid: Option<u32>, req: &GuardedRequest) -> (r:
    Result<Admission, Response>)
    ensures
        match r {
            Ok(a) => {
                &&& request_rejection(
                    caller_uid,
                    "guarded checkpoint requires kernel peer credentials"@,
                    req.ws_id@,
                    req.checkpoint_id@,
                    metadata_fault(opt_text(req.metadata)),
                ) is None
                &&& caller_uid == Some(a.uid)
                &&& opt_text(a.metadata) == recorded_metadata(opt_text(req.metadata))
                &&& state.registry@.get(req.ws_id@) matches Some(w) && a.registered_path@ == w.path
            },
            Err(e) => match request_rejection(
                caller_uid,
                "guarded checkpoint requires kernel peer credentials"@,
                req.ws_id@,
                req.checkpoint_id@,
                metadata_fault(opt_text(req.metadata)),
            ) {
                Some(f) => e.is_rejection(f.0, f.1),
                None => state.registry@.get(req.ws_id@) is None && is_unregistered(e, req.ws_id@),
            },
        },
{
    let (metadata, fault) = match &req.metadata {
        Some(text) => match read_json(text.as_str()) {
            Ok(v) => (Some(v), None),
            Err(e) => (None, Some(e)),
        },
        None => (None, None),
    };
    let uid: u32 = match admit_request(
        caller_uid,
        "guarded checkpoint requires kernel peer credentials",
        req.ws_id.as_str(),
        req.checkpoint_id.as_str(),
        &fault,
    ) {
        Ok(uid) => uid,
        Err(e) => {
            return Err(e);
        },
    };
    match state.get_by_wsid(req.ws_id.as_str()) {
        None => Err(workspace_not_found(req.ws_id.as_str())),
        Some(w) => Ok(Admission { uid, registered_path: w.path.clone(), metadata }),
    }
}

/// Second step: decides on what the probe of the registration gave.
pub fn after_probe(live: bool) -> (r: Result<(), Response>)
    ensures
        match r {
            Ok(_) => live,
            Err(e) => !live && e.is_rejection(
                GuardedCheckpointRejectionCodeV2::InvalidRegistrationPath,
                "registered workspace path no longer resolves to the live subvolume"@,
            ),
        },
{
    if live {
        Ok(())
    } else {
        Err(
            rejected(
                GuardedCheckpointRejectionCodeV2::InvalidRegistrationPath,
                "registered workspace path no longer resolves to the live subvolume",
            ),
        )
    }
}

/// Whether evidence is for the operation that is asked for.
pub open spec fn matches_operation(e: EvidenceView, req: GuardedRequest, uid: u32) -> bool {
    &&& e.ws_id == req.ws_id@
    &&& e.generation == req.expected_generation@
    &&& e.checkpoint_id == req.checkpoint_id@
    &&& e.operation_digest == req.operation_digest@
    &&& e.caller_uid == uid
}

/// Whether what evidence attests can still be seen: a snapshot that is in the index and not
/// missing, or that nothing was to be done.
pub open spec fn visible(nodes: Nodes, e: EvidenceView) -> bool {
    match e.outcome {
        OutcomeView::Created { snapshot_id } => snapshot_id == e.checkpoint_id
            && nodes.contains_key(snapshot_id) && !nodes[snapshot_id].missing,
        OutcomeView::Skipped { .. } => true,
    }
}

/// Whether evidence may be dropped to make room: it attests that nothing was done, or a
/// snapshot that is missing.
pub open spec fn evictable(nodes: Nodes, e: EvidenceView) -> bool {
    match e.outcome {
        OutcomeView::Created { snapshot_id } => snapshot_id == e.checkpoint_id
            && nodes.contains_key(snapshot_id) && nodes[snapshot_id].missing,
        OutcomeView::Skipped { .. } => true,
    }
}

/// Whether evidence is for the operation that is asked for.
pub fn evidence_matches(e: &GuardedCheckpointEvidenceV2, req: &GuardedRequest, uid: u32) -> (r: bool)
    ensures
        r == matches_operation(e@, *req, uid),
{
    str_eq(e.ws_id.as_str(), req.ws_id.as_str()) && e.generation.same(&req.expected_generation)
        && str_eq(e.checkpoint_id.as_str(), req.checkpoint_id.as_str()) && same_bytes(
        &e.operation_digest,
        &req.operation_digest,
    ) && e.caller_uid == uid
}

/// Whether what evidence attests can still be seen.
pub fn evidence_is_visible(index: &SnapshotIndex, e: &GuardedCheckpointEvidenceV2) -> (r: bool)
    ensures
        r == visible(index@.nodes, e@),
{
    match &e.outcome {
        GuardedCheckpointOutcomeV2::Created { snapshot_id } => {
            str_eq(snapshot_id.as_str(), e.checkpoint_id.as_str()) && match index.snapshots.get(
                snapshot_id.as_str(),
            ) {
                Some(m) => !m.missing,
                None => false,
            }
        },
        GuardedCheckpointOutcomeV2::Skipped { .. } => true,
    }
}

/// Whether evidence attests a snapshot that is marked missing.
pub fn created_evidence_is_marked_missing(
    index: &SnapshotIndex,
    e: &GuardedCheckpointEvidenceV2,
) -> (r: bool)
    ensures
        r == (e@.outcome is Created && evictable(index@.nodes, e@)),
{
    match &e.outcome {
        GuardedCheckpointOutcomeV2::Created { snapshot_id } => {
            str_eq(snapshot_id.as_str(), e.checkpoint_id.as_str()) && match index.snapshots.get(
                snapshot_id.as_str(),
            ) {
                Some(m) => m.missing,
                None => false,
            }
        },
        GuardedCheckpointOutcomeV2::Skipped { .. } => false,
    }
}

/// The evidence that may not be dropped.
pub open spec fn fixed_evidence(v: IndexView) -> Set<Seq<char>> {
    v.evidence.dom().filter(|k: Seq<char>| !evictable(v.nodes, v.evidence[k]))
}

/// `r` is `v` with room for one more evidence record: only evidence that may be dropped was
/// dropped, and no more than needed.
pub open spec fn makes_room(v: IndexView, r: IndexView) -> bool {
    &&& r == IndexView { evidence: r.evidence, ..v }
    &&& r.evidence.submap_of(v.evidence)
    &&& forall|k: Seq<char>| #[trigger]
        v.evidence.contains_key(k) && !r.evidence.contains_key(k) ==> evictable(
            v.nodes,
            v.evidence[k],
        )
    &&& r.evidence.dom().finite()
    &&& r.evidence.len() == if v.evidence.len() < GUARDED_CHECKPOINT_EVIDENCE_LIMIT_V2 {
        v.evidence.len()
    } else {
        (GUARDED_CHECKPOINT_EVIDENCE_LIMIT_V2 - 1) as nat
    }
}

/// A copy of the index with room for one more evidence record; none where all the room is taken
/// by evidence that may not be dropped.
pub fn index_with_evidence_slot(index: &SnapshotIndex) -> (r: Option<SnapshotIndex>)
    ensures
        match r {
            Some(next) => makes_room(index@, next@),
            None => fixed_evidence(index@).finite() && fixed_evidence(index@).len()
                >= GUARDED_CHECKPOINT_EVIDENCE_LIMIT_V2,
        },
        index@.evidence.dom().finite(),
{
    let ghost v = index@;
    let first: usize = index.governed_evidence.len();
    let mut next = index.duplicate();
    loop
        invariant
            v == index@,
            v.evidence.dom().finite(),
            next@ == (IndexView { evidence: next@.evidence, ..v }),
            next@.evidence.submap_of(v.evidence),
            next@.evidence.dom().finite(),
            forall|k: Seq<char>| #[trigger]
                v.evidence.contains_key(k) && !next@.evidence.contains_key(k) ==> evictable(
                    v.nodes,
                    v.evidence[k],
                ),
            next@.evidence == v.evidence || next@.evidence.len()
                >= GUARDED_CHECKPOINT_EVIDENCE_LIMIT_V2 - 1,
            next@.evidence != v.evidence ==> v.evidence.len()
                >= GUARDED_CHECKPOINT_EVIDENCE_LIMIT_V2,
        decreases next@.evidence.len(),
    {
        let count: usize = next.governed_evidence.len();
        if count < GUARDED_CHECKPOINT_EVIDENCE_LIMIT_V2 {
            return Some(next);
        }
        let ghost keys = next.governed_evidence.ordered_keys();
        let mut evict: Option<String> = None;
        let mut i: usize = 0;
        while i < count && evict.is_none()
            invariant
                i <= count == keys.len(),
                keys == next.governed_evidence.ordered_keys(),
                next@.nodes == v.nodes,
                match evict {
                    None => forall|j: int|
                        0 <= j < i ==> !evictable(
                            v.nodes,
                            next@.evidence[#[trigger] keys[j]],
                        ),
                    Some(k) => next@.evidence.contains_key(k@) && evictable(
                        v.nodes,
                        next@.evidence[k@],
                    ),
                },
            decreases count - i,
        {
            let (id, e) = next.governed_evidence.entry(i);
            let skipped = match &e.outcome {
                GuardedCheckpointOutcomeV2::Skipped { .. } => true,
                GuardedCheckpointOutcomeV2::Created { .. } => false,
            };
            if skipped || created_evidence_is_marked_missing(&next, e) {
                evict = Some(id.clone());
            }
            i = i + 1;
        }
        match evict {
            None => {
                proof {
                    let fixed = fixed_evidence(v);
                    assert forall|k: Seq<char>| next@.evidence.dom().contains(k) implies fixed.contains(
                        k,
                    ) by {
                        assert(keys.to_set().contains(k));
                        let j = keys.index_of(k);
                        assert(!evictable(v.nodes, next@.evidence[keys[j]]));
                    }
                    assert(fixed.finite());
                    vstd::set_lib::lemma_len_subset(next@.evidence.dom(), fixed);
                }
                return None;
            },
            Some(k) => {
                let ghost before = next@.evidence;
                next.governed_evidence.remove(k.as_str());
                proof {
                    before.lemma_remove_key_len(k@);
                    assert(!next@.evidence.contains_key(k@));
                    assert(v.evidence.contains_key(k@));
                    assert(next@.evidence.submap_of(v.evidence));
                    if before != v.evidence {
                        assert(v.evidence.len() >= GUARDED_CHECKPOINT_EVIDENCE_LIMIT_V2);
                    }
                }
            },
        }
    }
}

/// What the index says of an operation.
pub enum Standing {
    /// It was done before, and this is the evidence.
    Done(EvidenceView),
    /// The checkpoint identifier is taken; the message says by what.
    Conflict(Seq<char>),
    /// Nothing is known of it.
    New,
}

/// What an index says of an operation. A repeated request meets the evidence of the first; any
/// other use of a taken identifier is a conflict.
pub open spec fn standing(v: IndexView, req: GuardedRequest, uid: u32) -> Standing {
    let id = req.checkpoint_id@;
    if v.evidence.contains_key(id) {
        if matches_operation(v.evidence[id], req, uid) && visible(v.nodes, v.evidence[id]) {
            Standing::Done(v.evidence[id])
        } else {
            Standing::Conflict(
                "checkpoint id is already bound to a different guarded operation"@,
            )
        }
    } else if v.nodes.contains_key(id) {
        Standing::Conflict("checkpoint id already exists without matching guarded evidence"@)
    } else {
        Standing::New
    }
}

/// The rejection that what was read of the live generation leads to, if any.
pub open spec fn generation_rejection(
    generation: Result<WorkspaceGenerationTokenV2, String>,
    req: GuardedRequest,
) -> Option<(GuardedCheckpointRejectionCodeV2, Seq<char>)> {
    match generation {
        Err(e) => Some(
            (
                GuardedCheckpointRejectionCodeV2::DaemonNotReady,
                "failed to read live workspace generation: "@ + e@,
            ),
        ),
        Ok(g) => if g@ != req.expected_generation@ {
            Some(
                (
                    GuardedCheckpointRejectionCodeV2::GenerationMismatch,
                    "workspace generation no longer matches the guarded request"@,
                ),
            )
        } else {
            None
        },
    }
}

/// Third step: decides on the live generation and on what the index says. What comes back is a
/// copy of the index with room for the evidence of a new operation.
pub fn after_generation(
    index: &SnapshotIndex,
    req: &GuardedRequest,
    uid: u32,
    generation: Result<WorkspaceGenerationTokenV2, String>,
) -> (r: Result<SnapshotIndex, Response>)
    ensures
        match r {
            Ok(next) => generation_rejection(generation, *req) is None && standing(
                index@,
                *req,
                uid,
            ) is New && makes_room(index@, next@),
            Err(e) => match generation_rejection(generation, *req) {
                Some(f) => e.is_rejection(f.0, f.1),
                None => match standing(index@, *req, uid) {
                    Standing::Done(d) => e matches Response::GuardedCheckpointV2Ok { evidence }
                        && evidence@ == d,
                    Standing::Conflict(m) => e.is_rejection(
                        GuardedCheckpointRejectionCodeV2::OperationConflict,
                        m,
                    ),
                    Standing::New => fixed_evidence(index@).len()
                        >= GUARDED_CHECKPOINT_EVIDENCE_LIMIT_V2 && e.is_rejection(
                        GuardedCheckpointRejectionCodeV2::EvidenceCapacityReached,
                        "guarded evidence capacity is occupied by visible snapshots"@,
                    ),
                },
            },
        },
{
    match &generation {
        Err(e) => {
            return Err(
                rejected(
                    GuardedCheckpointRejectionCodeV2::DaemonNotReady,
                    joined("failed to read live workspace generation: ", e.as_str()).as_str(),
                ),
            );
        },
        Ok(g) => {
            if !g.same(&req.expected_generation) {
                return Err(
                    rejected(
                        GuardedCheckpointRejectionCodeV2::GenerationMismatch,
                        "workspace generation no longer matches the guarded request",
                    ),
                );
            }
        },
    }
    if let Some(e) = index.governed_evidence.get(req.checkpoint_id.as_str()) {
        if evidence_matches(e, req, uid) && evidence_is_visible(index, e) {
            return Err(Response::GuardedCheckpointV2Ok { evidence: e.duplicate() });
        }
        return Err(
            rejected(
                GuardedCheckpointRejectionCodeV2::OperationConflict,
                "checkpoint id is already bound to a different guarded operation",
            ),
        );
    }
    if index.snapshots.contains_key(req.checkpoint_id.as_str()) {
        return Err(
            rejected(
                GuardedCheckpointRejectionCodeV2::OperationConflict,
                "checkpoint id already exists without matching guarded evidence",
            ),
        );
    }
    match index_with_evidence_slot(index) {
        Some(next) => Ok(next),
        None => Err(
            rejected(
                GuardedCheckpointRejectionCodeV2::EvidenceCapacityReached,
                "guarded evidence capacity is occupied by visible snapshots",
            ),
        ),
    }
}

/// Fourth step: decides on whether the workspace is quiescent.
pub fn after_quiescence(quiescent: bool) -> (r: Result<(), Response>)
    ensures
        match r {
            Ok(_) => quiescent,
            Err(e) => !quiescent && e.is_rejection(
                GuardedCheckpointRejectionCodeV2::WriteLockConflict,
                "workspace has active write operations; retry after it becomes quiescent"@,
            ),
        },
{
    if quiescent {
        Ok(())
    } else {
        Err(
            rejected(
                GuardedCheckpointRejectionCodeV2::WriteLockConflict,
                "workspace has active write operations; retry after it becomes quiescent",
            ),
        )
    }
}

/// The evidence of an operation.
pub open spec fn evidence_of(
    req: GuardedRequest,
    registered_path: Seq<char>,
    uid: u32,
    outcome: OutcomeView,
) -> EvidenceView {
    EvidenceView {
        ws_id: req.ws_id@,
        registered_path,
        generation: req.expected_generation@,
        checkpoint_id: req.checkpoint_id@,
        operation_digest: req.operation_digest@,
        caller_uid: uid,
        outcome,
    }
}

fn evidence(
    req: &GuardedRequest,
    registered_path: &str,
    uid: u32,
    outcome: GuardedCheckpointOutcomeV2,
) -> (r: GuardedCheckpointEvidenceV2)
    ensures
        r@ == evidence_of(*req, registered_path@, uid, outcome@),
{
    GuardedCheckpointEvidenceV2 {
        ws_id: req.ws_id.clone(),
        registered_path: registered_path.to_owned(),
        generation: req.expected_generation,
        checkpoint_id: req.checkpoint_id.clone(),
        operation_digest: req.operation_digest,
        caller_uid: uid,
        outcome,
    }
}

/// What to do about a new operation once the workspace's contents were looked at.
pub enum NextMove {
    /// The workspace is empty: save this index, which holds the evidence of that.
    SaveSkipped { index: SnapshotIndex, evidence: GuardedCheckpointEvidenceV2 },
    /// Create the snapshot; the index is as it was handed in.
    CreateSnapshot { index: SnapshotIndex },
    /// Answer.
    Reply(Response),
}

/// The outcome of an operation on an empty workspace.
pub open spec fn skipped_outcome() -> OutcomeView {
    OutcomeView::Skipped { reason: "Empty workspace, no snapshot created."@ }
}

impl IndexView {
    /// The index with one more evidence record.
    pub open spec fn with_evidence(self, id: Seq<char>, e: EvidenceView) -> IndexView {
        IndexView { evidence: self.evidence.insert(id, e), ..self }
    }

    /// The index with one more snapshot, which becomes the head: the old head lists it in place
    /// of the live marker, and the new one carries the marker.
    pub open spec fn checkpointed(self, id: Seq<char>, m: MetaView) -> IndexView {
        let nodes = match self.head {
            Some(h) => if self.nodes.contains_key(h) {
                self.nodes.insert(
                    h,
                    MetaView {
                        child_ids: without(self.nodes[h].child_ids, LIVE_CHILD@).push(id),
                        ..self.nodes[h]
                    },
                )
            } else {
                self.nodes
            },
            None => self.nodes,
        };
        IndexView {
            nodes: nodes.insert(
                id,
                MetaView { parent_id: self.head, child_ids: seq![LIVE_CHILD@], ..m },
            ),
            head: Some(id),
            ..self
        }
    }
}

/// Fifth step: decides on what the workspace holds. `contents` says whether it is empty, or why
/// it could not be looked at.
pub fn after_inspection(
    next: SnapshotIndex,
    req: &GuardedRequest,
    admission: &Admission,
    contents: Result<bool, String>,
) -> (r: NextMove)
    ensures
        match contents {
            Err(e) => r matches NextMove::Reply(a) && a.is_rejection(
                GuardedCheckpointRejectionCodeV2::DaemonNotReady,
                "failed to inspect workspace contents: "@ + e@,
            ),
            Ok(true) => r matches NextMove::SaveSkipped { index, evidence } && evidence@
                == evidence_of(
                *req,
                admission.registered_path@,
                admission.uid,
                skipped_outcome(),
            ) && index@
                == next@.with_evidence(req.checkpoint_id@, evidence@),
            Ok(false) => r matches NextMove::CreateSnapshot { index } && index@ == next@,
        },
{
    match contents {
        Err(e) => NextMove::Reply(
            rejected(
                GuardedCheckpointRejectionCodeV2::DaemonNotReady,
                joined("failed to inspect workspace contents: ", e.as_str()).as_str(),
            ),
        ),
        Ok(true) => {
            let mut index = next;
            let e = evidence(
                req,
                admission.registered_path.as_str(),
                admission.uid,
                GuardedCheckpointOutcomeV2::Skipped {
                    reason: "Empty workspace, no snapshot created.".to_owned(),
                },
            );
            index.governed_evidence.insert(req.checkpoint_id.clone(), e.duplicate());
            NextMove::SaveSkipped { index, evidence: e }
        },
        Ok(false) => NextMove::CreateSnapshot { index: next },
    }
}

/// What is recorded of a new snapshot, but for its place in the lineage.
pub open spec fn new_record(
    req: GuardedRequest,
    metadata: Option<Seq<char>>,
    created_at: TimeView,
) -> MetaView {
    MetaView {
        message: opt_text(req.message),
        metadata,
        pinned: req.pin,
        created_at,
        missing: false,
        parent_id: None,
        child_ids: seq![],
    }
}

/// Sixth step: decides on whether the snapshot was created, and when. What comes back is the
/// index to save and the evidence that it holds.
pub fn after_creation(
    next: SnapshotIndex,
    req: &GuardedRequest,
    admission: &Admission,
    created: Result<Timestamp, String>,
) -> (r: Result<(SnapshotIndex, GuardedCheckpointEvidenceV2), Response>)
    ensures
        match created {
            Err(e) => r matches Err(a) && a.is_error(
                ErrorCode::InternalError,
                "guarded checkpoint backend operation failed; reconcile before retrying: "@ + e@,
            ),
            Ok(t) => {
                &&& r matches Ok(s)
                &&& s.1@ == evidence_of(
                    *req,
                    admission.registered_path@,
                    admission.uid,
                    OutcomeView::Created { snapshot_id: req.checkpoint_id@ },
                )
                &&& s.0@ == next@.checkpointed(
                    req.checkpoint_id@,
                    new_record(*req, opt_text(admission.metadata), t@),
                ).with_evidence(req.checkpoint_id@, s.1@)
            },
        },
{
    let created_at = match created {
        Err(e) => {
            return Err(
                backend_effect_error(
                    joined(
                        "guarded checkpoint backend operation failed; reconcile before retrying: ",
                        e.as_str(),
                    ).as_str(),
                ),
            );
        },
        Ok(t) => t,
    };
    let e = evidence(
        req,
        admission.registered_path.as_str(),
        admission.uid,
        GuardedCheckpointOutcomeV2::Created { snapshot_id: req.checkpoint_id.clone() },
    );
    let ghost v = next@;
    let mut index = next;
    let old_head = copy_opt(&index.head);
    if let Some(h) = &old_head {
        if let Some(m) = index.snapshots.get(h.as_str()) {
            let mut kids = without_text(&m.child_ids, LIVE_CHILD);
            let ghost before = texts(kids@);
            kids.push(req.checkpoint_id.clone());
            proof {
                assert(texts(kids@) =~= before.push(req.checkpoint_id@));
            }
            crate::index::set_children(&mut index.snapshots, h.as_str(), kids);
        }
    }
    let mut marker: Vec<String> = Vec::new();
    marker.push(LIVE_CHILD.to_owned());
    proof {
        assert(texts(marker@) =~= seq![LIVE_CHILD@]);
    }
    index.snapshots.insert(
        req.checkpoint_id.clone(),
        SnapshotMeta {
            message: copy_opt(&req.message),
            metadata: copy_opt(&admission.metadata),
            pinned: req.pin,
            created_at,
            missing: false,
            parent_id: old_head,
            child_ids: marker,
        },
    );
    index.head = Some(req.checkpoint_id.clone());
    index.governed_evidence.insert(req.checkpoint_id.clone(), e.duplicate());
    Ok((index, e))
}

impl DaemonState {
    /// Replaces the index of a workspace, if it is registered.
    pub fn set_index(&mut self, ws_id: &str, index: SnapshotIndex)
        ensures
            final(self).same_but_registry(*old(self)),
            final(self).registry@ == match old(self).registry@.get(ws_id@) {
                Some(w) => old(self).registry@.updated(WorkspaceView { index: index@, ..w }),
                None => old(self).registry@,
            },
    {
        if let Some(w) = self.registry.get_by_wsid(ws_id) {
            let copy = WorkspaceState {
                ws_id: w.ws_id.clone(),
                path: w.path.clone(),
                index,
                policy: w.policy.clone(),
                policy_failsafe: w.policy_failsafe,
            };
            self.registry.update(copy);
        }
    }

    /// Last step: answers once the index was saved, or could not be. Memory takes the index
    /// over only when it is on disk. Where the snapshot was created before, the failure to save
    /// is no rejection: the operation may have taken effect.
    pub fn finish_checkpoint(
        &mut self,
        ws_id: &str,
        index: SnapshotIndex,
        evidence: GuardedCheckpointEvidenceV2,
        saved: Result<(), String>,
    ) -> (r: Response)
        ensures
            final(self).same_but_registry(*old(self)),
            match saved {
                Ok(_) => {
                    &&& final(self).registry@ == match old(self).registry@.get(ws_id@) {
                        Some(w) => old(self).registry@.updated(WorkspaceView { index: index@, ..w }),
                        None => old(self).registry@,
                    }
                    &&& r matches Response::GuardedCheckpointV2Ok { evidence: e } && e@ == evidence@
                },
                Err(e) => {
                    &&& final(self).registry@ == old(self).registry@
                    &&& if evidence@.outcome is Created {
                        r.is_error(
                            ErrorCode::InternalError,
                            "snapshot was created but durable evidence save failed; reconcile before retrying: "@
                                + e@,
                        )
                    } else {
                        r.is_rejection(
                            GuardedCheckpointRejectionCodeV2::DaemonNotReady,
                            "failed to durably save skipped checkpoint evidence: "@ + e@,
                        )
                    }
                },
            },
    {
        match saved {
            Ok(_) => {
                self.set_index(ws_id, index);
                Response::GuardedCheckpointV2Ok { evidence }
            },
            Err(e) => match &evidence.outcome {
                GuardedCheckpointOutcomeV2::Created { .. } => backend_effect_error(
                    joined(
                        "snapshot was created but durable evidence save failed; reconcile before retrying: ",
                        e.as_str(),
                    ).as_str(),
                ),
                GuardedCheckpointOutcomeV2::Skipped { .. } => rejected(
                    GuardedCheckpointRejectionCodeV2::DaemonNotReady,
                    joined(
                        "failed to durably save skipped checkpoint evidence: ",
                        e.as_str(),
                    ).as_str(),
                ),
            },
        }
    }

    /// Answers a query for the evidence of a guarded checkpoint.
    pub fn checkpoint_evidence(
        &self,
        caller_uid: Option<u32>,
        req: &GuardedRequest,
    ) -> (r: Response)
        ensures
            evidence_response(self.registry@, caller_uid, *req, r),
    {
        let uid: u32 = match admit_request(
            caller_uid,
            "checkpoint evidence requires kernel peer credentials",
            req.ws_id.as_str(),
            req.checkpoint_id.as_str(),
            &None,
        ) {
            Ok(uid) => uid,
            Err(e) => {
                return e;
            },
        };
        let w = match self.get_by_wsid(req.ws_id.as_str()) {
            Some(w) => w,
            None => {
                return workspace_not_found(req.ws_id.as_str());
            },
        };
        let e = match w.index.governed_evidence.get(req.checkpoint_id.as_str()) {
            Some(e) => e,
            None => {
                return Response::CheckpointEvidenceV2Ok { evidence: None };
            },
        };
        if e.caller_uid != uid {
            return rejected(
                GuardedCheckpointRejectionCodeV2::CallerMismatch,
                "stored checkpoint evidence belongs to a different caller",
            );
        }
        if !evidence_matches(e, req, uid) {
            return rejected(
                GuardedCheckpointRejectionCodeV2::OperationConflict,
                "stored checkpoint evidence does not match the requested operation",
            );
        }
        if evidence_is_visible(&w.index, e) {
            Response::CheckpointEvidenceV2Ok { evidence: Some(e.duplicate()) }
        } else {
            Response::CheckpointEvidenceV2Ok { evidence: None }
        }
    }

    /// First step of finding the identity of a registered path: the workspace to look at.
    pub fn identity_candidate(&self, registration_path: &str) -> (r: Result<String, Response>)
        ensures
            match r {
                Ok(id) => registration_path_fault(registration_path@) is None
                    && self.registry@.id_at(registration_path@) == Some(id@) && workspace_id_fault(
                    id@,
                ) is None,
                Err(e) => match registration_path_fault(registration_path@) {
                    Some(m) => e.is_rejection(
                        GuardedCheckpointRejectionCodeV2::InvalidRegistrationPath,
                        m,
                    ),
                    None => match self.registry@.id_at(registration_path@) {
                        None => is_unregistered(e, registration_path@),
                        Some(id) => workspace_id_fault(id) matches Some(m) && e.is_rejection(
                            GuardedCheckpointRejectionCodeV2::InvalidWorkspaceId,
                            m,
                        ),
                    },
                },
            },
    {
        if let Err(m) = validate_registration_path(registration_path) {
            return Err(
                rejected(
                    GuardedCheckpointRejectionCodeV2::InvalidRegistrationPath,
                    m.as_str(),
                ),
            );
        }
        match self.registry.wsid_for_exact_registration_path(registration_path) {
            None => Err(workspace_not_found(registration_path)),
            Some(id) => match validate_workspace_id_v2(id.as_str()) {
                Err(m) => Err(
                    rejected(GuardedCheckpointRejectionCodeV2::InvalidWorkspaceId, m.as_str()),
                ),
                Ok(_) => Ok(id),
            },
        }
    }

    /// Second step: confirms, once the workspace is locked and its registration probed, that
    /// the path in this very spelling is still registered for it.
    pub fn identity_confirm(&self, registration_path: &str, candidate: &str, live: bool) -> (r:
        Result<(), Response>)
        ensures
            match r {
                Ok(_) => live && registers(self.registry@, registration_path@, candidate@),
                Err(e) => is_unregistered(e, registration_path@) && !(live && registers(
                    self.registry@,
                    registration_path@,
                    candidate@,
                )),
            },
    {
        let w = match self.get_by_wsid(candidate) {
            Some(w) => w,
            None => {
                return Err(workspace_not_found(registration_path));
            },
        };
        let registered = match self.registry.wsid_for_exact_registration_path(registration_path) {
            Some(id) => str_eq(id.as_str(), candidate),
            None => false,
        };
        if !registered || !live || !str_eq(w.path.as_str(), registration_path) {
            return Err(workspace_not_found(registration_path));
        }
        Ok(())
    }
}

/// Whether a path, in this very spelling, is registered for a workspace.
pub open spec fn registers(v: RegistryView, path: Seq<char>, ws_id: Seq<char>) -> bool {
    &&& v.id_at(path) == Some(ws_id)
    &&& v.by_id.contains_key(ws_id)
    &&& v.by_id[ws_id].path == path
}

/// Whether a response gives the identity of a workspace, or says why its live generation could
/// not be read.
pub open spec fn is_identity(
    r: Response,
    ws_id: Seq<char>,
    path: Seq<char>,
    generation: Result<WorkspaceGenerationTokenV2, String>,
) -> bool {
    match generation {
        Ok(g) => r matches Response::WorkspaceIdentityV2Ok {
            protocol_version,
            ws_id: i,
            registered_path: p,
            generation: h,
        } && protocol_version == GUARDED_CHECKPOINT_PROTOCOL_VERSION_V2 && i@ == ws_id && p@ == path
            && h == g,
        Err(e) => r.is_rejection(
            GuardedCheckpointRejectionCodeV2::DaemonNotReady,
            "failed to read live workspace generation: "@ + e@,
        ),
    }
}

/// Last step of finding the identity of a registered path: the answer, once the live generation
/// was read, or could not be.
pub fn identity_answer(
    ws_id: String,
    registered_path: String,
    generation: Result<WorkspaceGenerationTokenV2, String>,
) -> (r: Response)
    ensures
        is_identity(r, ws_id@, registered_path@, generation),
{
    match generation {
        Ok(generation) => Response::WorkspaceIdentityV2Ok {
            protocol_version: GUARDED_CHECKPOINT_PROTOCOL_VERSION_V2,
            ws_id,
            registered_path,
            generation,
        },
        Err(e) => rejected(
            GuardedCheckpointRejectionCodeV2::DaemonNotReady,
            joined("failed to read live workspace generation: ", e.as_str()).as_str(),
        ),
    }
}

/// What an evidence query is answered.
pub open spec fn evidence_response(
    v: RegistryView,
    caller_uid: Option<u32>,
    req: GuardedRequest,
    r: Response,
) -> bool {
    match request_rejection(
        caller_uid,
        "checkpoint evidence requires kernel peer credentials"@,
        req.ws_id@,
        req.checkpoint_id@,
        None,
    ) {
        Some(f) => r.is_rejection(f.0, f.1),
        None => match v.get(req.ws_id@) {
            None => is_unregistered(r, req.ws_id@),
            Some(w) => evidence_answer(w.index, req, caller_uid->0, r),
        },
    }
}

/// What an evidence query is answered from an index.
pub open spec fn evidence_answer(v: IndexView, req: GuardedRequest, uid: u32, r: Response) -> bool {
    let id = req.checkpoint_id@;
    if !v.evidence.contains_key(id) {
        r matches Response::CheckpointEvidenceV2Ok { evidence } && evidence is None
    } else if v.evidence[id].caller_uid != uid {
        r.is_rejection(
            GuardedCheckpointRejectionCodeV2::CallerMismatch,
            "stored checkpoint evidence belongs to a different caller"@,
        )
    } else if !matches_operation(v.evidence[id], req, uid) {
        r.is_rejection(
            GuardedCheckpointRejectionCodeV2::OperationConflict,
            "stored checkpoint evidence does not match the requested operation"@,
        )
    } else if visible(v.nodes, v.evidence[id]) {
        r matches Response::CheckpointEvidenceV2Ok { evidence } && evidence matches Some(e) && e@
            == v.evidence[id]
    } else {
        r matches Response::CheckpointEvidenceV2Ok { evidence } && evidence is None
    }
}

/// A request that was carried out, and is made again by the same caller, meets the evidence of
/// the first time: nothing is done twice.
pub proof fn lemma_repeated_request_is_recognised(
    v: IndexView,
    req: GuardedRequest,
    path: Seq<char>,
    uid: u32,
    metadata: Option<Seq<char>>,
    created_at: TimeView,
)
    ensures
        ({
            let e = evidence_of(
                req,
                path,
                uid,
                OutcomeView::Created { snapshot_id: req.checkpoint_id@ },
            );
            standing(
                v.checkpointed(
                    req.checkpoint_id@,
                    new_record(req, metadata, created_at),
                ).with_evidence(req.checkpoint_id@, e),
                req,
                uid,
            ) == Standing::Done(e)
        }),
        ({
            let e = evidence_of(req, path, uid, skipped_outcome());
            standing(v.with_evidence(req.checkpoint_id@, e), req, uid) == Standing::Done(e)
        }),
{
}

/// Another caller, another operation digest or another generation never meets the evidence of
/// an operation: the identifier is taken.
pub proof fn lemma_other_operation_conflicts(v: IndexView, req: GuardedRequest, uid: u32)
    requires
        v.evidence.contains_key(req.checkpoint_id@),
        !matches_operation(v.evidence[req.checkpoint_id@], req, uid),
    ensures
        standing(v, req, uid) is Conflict,
{
}

/// Making room and adding evidence keeps the number of records within the limit, and keeps all
/// evidence of snapshots that can be seen.
pub proof fn lemma_evidence_is_bounded(
    v: IndexView,
    next: IndexView,
    id: Seq<char>,
    e: EvidenceView,
    k: Seq<char>,
)
    requires
        makes_room(v, next),
        !v.evidence.contains_key(id),
    ensures
        next.with_evidence(id, e).evidence.len() <= GUARDED_CHECKPOINT_EVIDENCE_LIMIT_V2,
        v.evidence.contains_key(k) && v.evidence[k].outcome is Created && visible(
            v.nodes,
            v.evidence[k],
        ) ==> next.with_evidence(id, e).evidence.contains_key(k) && next.with_evidence(
            id,
            e,
        ).evidence[k] == v.evidence[k],
{
    assert(!next.evidence.contains_key(id));
    assert(next.evidence.insert(id, e).dom() =~= next.evidence.dom().insert(id));
}

/// A checkpoint keeps the lineage consistent.
pub proof fn lemma_checkpoint_keeps_lineage(v: IndexView, id: Seq<char>, m: MetaView)
    requires
        linked(v),
        !v.nodes.contains_key(id),
        id != LIVE_CHILD@,
    ensures
        linked(v.checkpointed(id, m)),
        v.checkpointed(id, m).head == Some(id),
        parent_of(v.checkpointed(id, m).nodes, id) == v.head,
{
    let r = v.checkpointed(id, m);
    let rank = choose|rank: spec_fn(Seq<char>) -> nat| ranked(v.nodes, rank);
    let rank2 = |k: Seq<char>|
        if k == id {
            match v.head {
                Some(h) => rank(h) + 1,
                None => 0,
            }
        } else {
            rank(k)
        };
    assert forall|k: Seq<char>| #[trigger] r.nodes.contains_key(k) implies record_linked(
        r.nodes,
        r.head,
        k,
    ) by {
        if k == id {
            let kids = r.nodes[id].child_ids;
            assert(kids[0] == LIVE_CHILD@);
            if v.head is Some {
                let h = v.head->0;
                assert(v.nodes.contains_key(h));
                let l = without(v.nodes[h].child_ids, LIVE_CHILD@).push(id);
                assert(l[l.len() - 1] == id);
                assert(r.nodes[h].child_ids.contains(id));
            }
        } else {
            assert(v.nodes.contains_key(k));
            assert(record_linked(v.nodes, v.head, k));
            let old_kids = v.nodes[k].child_ids;
            crate::lineage::lemma_without(old_kids, LIVE_CHILD@);
            let l0 = without(old_kids, LIVE_CHILD@);
            let kids = r.nodes[k].child_ids;
            assert(!old_kids.contains(id));
            if v.head == Some(k) {
                assert(kids == l0.push(id));
                assert forall|c: Seq<char>| #[trigger] kids.contains(c) <==> l0.contains(c) || c
                    == id by {
                    if l0.contains(c) {
                        let i = l0.index_of(c);
                        assert(kids[i] == c);
                    }
                    assert(kids[l0.len() as int] == id);
                }
                assert forall|i: int, j: int|
                    0 <= i < kids.len() && 0 <= j < kids.len() && i != j implies kids[i]
                    != kids[j] by {
                    if i < l0.len() {
                        assert(l0.contains(l0[i]));
                    }
                    if j < l0.len() {
                        assert(l0.contains(l0[j]));
                    }
                }
            }
            if v.nodes[k].parent_id is Some {
                let p = v.nodes[k].parent_id->0;
                let pk = v.nodes[p].child_ids;
                crate::lineage::lemma_without(pk, LIVE_CHILD@);
                if v.head == Some(p) {
                    let l1 = without(pk, LIVE_CHILD@);
                    assert(k != LIVE_CHILD@);
                    assert(l1.contains(k));
                    let i = l1.index_of(k);
                    assert(r.nodes[p].child_ids[i] == k);
                }
            }
        }
    }
    assert(ranked(r.nodes, rank2)) by {
        assert forall|k: Seq<char>| #[trigger]
            r.nodes.contains_key(k) && r.nodes[k].parent_id is Some implies rank2(
            r.nodes[k].parent_id->0,
        ) < rank2(k) by {
            if k != id {
                assert(v.nodes.contains_key(k));
                assert(record_linked(v.nodes, v.head, k));
            } else {
                assert(v.nodes.contains_key(v.head->0));
            }
        }
    }
}

/// Whether a response to an evidence query hands evidence out.
pub open spec fn hands_out(r: Response, e: EvidenceView) -> bool {
    r matches Response::CheckpointEvidenceV2Ok { evidence } && evidence matches Some(x) && x@ == e
}

/// The evidence that a checkpoint recorded, whether it created a snapshot or skipped an empty
/// workspace, is what a query of the same caller for the same operation is answered.
pub proof fn lemma_evidence_reads_back(
    v: IndexView,
    req: GuardedRequest,
    path: Seq<char>,
    uid: u32,
    metadata: Option<Seq<char>>,
    created_at: TimeView,
    r: Response,
)
    ensures
        ({
            let id = req.checkpoint_id@;
            let e = evidence_of(req, path, uid, OutcomeView::Created { snapshot_id: id });
            evidence_answer(
                v.checkpointed(id, new_record(req, metadata, created_at)).with_evidence(id, e),
                req,
                uid,
                r,
            ) ==> hands_out(r, e)
        }),
        ({
            let e = evidence_of(req, path, uid, skipped_outcome());
            evidence_answer(v.with_evidence(req.checkpoint_id@, e), req, uid, r) ==> hands_out(
                r,
                e,
            )
        }),
{
}

} // verus!
