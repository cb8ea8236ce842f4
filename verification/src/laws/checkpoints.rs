//! Promises about guarded checkpoints.

use crate::checkpoint::{
    Admitted, CheckpointEvent, CheckpointStage, IdentityEvent, IdentityStage,
};
use crate::guarded::{
    admit_request, after_creation, after_generation, after_inspection, after_probe,
    after_quiescence, backend_effect_error, created_evidence_is_marked_missing,
    evidence_is_visible, evidence_matches, identity_answer, index_with_evidence_slot, rejected,
    start_checkpoint, workspace_not_found, Admission, GuardedRequest, NextMove,
};
use crate::ids::{validate_checkpoint_id_v2, validate_workspace_id_v2, LIVE_CHILD};
use crate::index::{IndexView, SnapshotIndex};
use crate::json::json_reading;
use crate::laws::snapshots::same_content;
use crate::message::{ErrorCode, GuardedCheckpointRejectionCodeV2, Response};
use crate::paths::validate_registration_path;
use crate::snapshot::{
    EvidenceView, GuardedCheckpointEvidenceV2, GuardedCheckpointOutcomeV2, OutcomeView, Timestamp,
    WorkspaceGenerationTokenV2,
};
use crate::state::DaemonState;
use crate::text_list::opt_text;
use vstd::prelude::*;

verus! {

/// Whether evidence binds an operation to its request, its caller and its workspace.
pub open spec fn binds(
    e: GuardedCheckpointEvidenceV2,
    req: GuardedRequest,
    path: Seq<char>,
    uid: u32,
) -> bool {
    &&& e.ws_id@ == req.ws_id@
    &&& e.registered_path@ == path
    &&& e.generation@ == req.expected_generation@
    &&& e.checkpoint_id@ == req.checkpoint_id@
    &&& e.operation_digest@ == req.operation_digest@
    &&& e.caller_uid == uid
}

/// Whether an index is another one with the snapshot of a request, which was created at a time
/// and hangs from the old head: the record says what the request asked for, and the old head
/// lists it in place of the live marker. Nothing else changed but for the evidence of it.
pub open spec fn records_request(
    before: IndexView,
    after: IndexView,
    req: GuardedRequest,
    metadata: Option<Seq<char>>,
    t: Timestamp,
) -> bool {
    let id = req.checkpoint_id@;
    let m = after.nodes[id];
    &&& after.nodes.dom() == before.nodes.dom().insert(id)
    &&& m.pinned == req.pin
    &&& m.message == opt_text(req.message)
    &&& m.metadata == metadata
    &&& m.created_at == t@
    &&& !m.missing
    &&& m.parent_id == before.head
    &&& m.child_ids == seq![LIVE_CHILD@]
    &&& after.head == Some(id)
    &&& forall|k: Seq<char>|
        #![trigger after.nodes[k]]
        before.nodes.contains_key(k) && k != id ==> same_content(before.nodes[k], after.nodes[k])
            && after.nodes[k].parent_id == before.nodes[k].parent_id && (before.head != Some(k)
            ==> after.nodes[k] == before.nodes[k])
    &&& before.head matches Some(h) ==> (before.nodes.contains_key(h) && h != id ==> {
        let kids = after.nodes[h].child_ids;
        &&& kids.len() > 0
        &&& kids.last() == id
        &&& forall|c: Seq<char>| #[trigger]
            kids.drop_last().contains(c) <==> before.nodes[h].child_ids.contains(c) && c
                != LIVE_CHILD@
    })
    &&& after.rollbacks == before.rollbacks
    &&& after.workspace_path == before.workspace_path
}

proof fn lemma_creation_records(
    before: IndexView,
    req: GuardedRequest,
    metadata: Option<Seq<char>>,
    t: Timestamp,
    e: EvidenceView,
)
    ensures
        records_request(
            before,
            before.checkpointed(
                req.checkpoint_id@,
                crate::guarded::new_record(req, metadata, t@),
            ).with_evidence(req.checkpoint_id@, e),
            req,
            metadata,
            t,
        ),
{
    let id = req.checkpoint_id@;
    let after = before.checkpointed(
        id,
        crate::guarded::new_record(req, metadata, t@),
    ).with_evidence(id, e);
    assert(after.nodes.dom() =~= before.nodes.dom().insert(id));
    if before.head is Some && before.nodes.contains_key(before.head->0) && before.head->0 != id {
        let h = before.head->0;
        let l = crate::text_list::without(before.nodes[h].child_ids, LIVE_CHILD@);
        crate::lineage::lemma_without(before.nodes[h].child_ids, LIVE_CHILD@);
        assert(after.nodes[h].child_ids == l.push(id));
        assert(l.push(id).drop_last() =~= l);
    }
}

/// The snapshot that a guarded checkpoint records says what the request asked for: it is pinned
/// exactly where the request says so, and has the request's message and metadata and the time of
/// its creation. The evidence binds it to the request. Where the creation failed, nothing is
/// recorded.
pub proof fn lemma_checkpoint_records_the_request(
    next: SnapshotIndex,
    req: GuardedRequest,
    a: Admission,
    created: Result<Timestamp, String>,
    r: Result<(SnapshotIndex, GuardedCheckpointEvidenceV2), Response>,
)
    requires
        call_ensures(after_creation, (next, &req, &a, created), r),
    ensures
        created is Ok <==> r is Ok,
        r matches Ok(s) ==> {
            &&& records_request(next@, s.0@, req, opt_text(a.metadata), created->Ok_0)
            &&& s.0.snapshots@.contains_key(req.checkpoint_id@)
            &&& binds(s.1, req, a.registered_path@, a.uid)
            &&& s.1.outcome matches GuardedCheckpointOutcomeV2::Created { snapshot_id }
            &&& snapshot_id@ == req.checkpoint_id@
            &&& s.0.governed_evidence@ == next.governed_evidence@.insert(
                req.checkpoint_id@,
                s.1@,
            )
        },
        r matches Err(e) ==> (e matches Response::Error { code, .. } && code
            == ErrorCode::InternalError),
{
    if let Ok(t) = created {
        lemma_creation_records(next@, req, opt_text(a.metadata), t, r->Ok_0.1@);
    }
}

/// An empty workspace is skipped: no snapshot comes in, and the evidence says so. Any other is
/// checkpointed; and where the contents cannot be seen, the request is rejected.
pub proof fn lemma_empty_workspaces_are_skipped(
    next: SnapshotIndex,
    req: GuardedRequest,
    a: Admission,
    contents: Result<bool, String>,
    r: NextMove,
)
    requires
        call_ensures(after_inspection, (next, &req, &a, contents), r),
    ensures
        r is SaveSkipped <==> contents == Ok::<bool, String>(true),
        r is CreateSnapshot <==> contents == Ok::<bool, String>(false),
        r is Reply <==> contents is Err,
        r matches NextMove::SaveSkipped { index, evidence } ==> {
            &&& index.snapshots@ == next.snapshots@
            &&& index@.head == next@.head
            &&& index.guarded_rollbacks@ == next.guarded_rollbacks@
            &&& index.governed_evidence@ == next.governed_evidence@.insert(
                req.checkpoint_id@,
                evidence@,
            )
            &&& binds(evidence, req, a.registered_path@, a.uid)
            &&& evidence.outcome is Skipped
        },
        r matches NextMove::CreateSnapshot { index } ==> index@ == next@,
        r matches NextMove::Reply(e) ==> (e matches Response::GuardedCheckpointV2Rejected {
            code,
            ..
        } && code == GuardedCheckpointRejectionCodeV2::DaemonNotReady),
{
}

/// Evidence is for an operation exactly where workspace, generation, identifier, digest and
/// caller are all the same.
pub proof fn lemma_evidence_matches_all_or_nothing(
    e: GuardedCheckpointEvidenceV2,
    req: GuardedRequest,
    uid: u32,
    r: bool,
)
    requires
        call_ensures(evidence_matches, (&e, &req, uid), r),
    ensures
        r <==> binds(e, req, e.registered_path@, uid),
{
}

/// Evidence of a snapshot can be seen exactly while the snapshot is recorded and not missing, and
/// evidence of a skipped checkpoint always. What can be seen is never taken for missing.
pub proof fn lemma_visible_evidence_is_not_missing(
    index: SnapshotIndex,
    e: GuardedCheckpointEvidenceV2,
    visible: bool,
    gone: bool,
)
    requires
        call_ensures(evidence_is_visible, (&index, &e), visible),
        call_ensures(created_evidence_is_marked_missing, (&index, &e), gone),
    ensures
        !(visible && gone),
        e.outcome is Skipped ==> visible && !gone,
        e.outcome matches GuardedCheckpointOutcomeV2::Created { snapshot_id } ==> {
            let own = snapshot_id@ == e.checkpoint_id@ && index.snapshots@.contains_key(
                snapshot_id@,
            );
            &&& visible <==> own && !index.snapshots@[snapshot_id@].missing
            &&& gone <==> own && index.snapshots@[snapshot_id@].missing
        },
{
}

/// Making room for evidence changes nothing but the evidence, and drops none of a snapshot that
/// is there; afterwards there is room for one more within the limit.
pub proof fn lemma_room_is_made_at_no_cost(
    index: SnapshotIndex,
    r: Option<SnapshotIndex>,
    k: Seq<char>,
)
    requires
        call_ensures(index_with_evidence_slot, (&index,), r),
    ensures
        r matches Some(next) ==> {
            &&& next.snapshots@ == index.snapshots@
            &&& next@.head == index@.head
            &&& next.guarded_rollbacks@ == index.guarded_rollbacks@
            &&& next.governed_evidence@.len() < 256
            &&& index.governed_evidence@.len() < 256 ==> next.governed_evidence@.len()
                == index.governed_evidence@.len()
            &&& next.governed_evidence@.contains_key(k) ==> index.governed_evidence@.contains_key(k)
                && next.governed_evidence@[k] == index.governed_evidence@[k]
            &&& index.governed_evidence@.contains_key(k) && (index.governed_evidence@[k].outcome
                matches crate::snapshot::OutcomeView::Created { snapshot_id } && !(
            index.snapshots@.contains_key(snapshot_id) && index.snapshots@[snapshot_id].missing))
                ==> next.governed_evidence@.contains_key(k)
        },
        r is None ==> index.governed_evidence@.len() >= 256,
{
    let v = index@;
    if r is None {
        let f = crate::guarded::fixed_evidence(v);
        assert(f.subset_of(v.evidence.dom()));
        vstd::set_lib::lemma_len_subset(f, v.evidence.dom());
    }
}

/// The generation fences: a request goes on, or meets the evidence of an earlier one, only where
/// the live generation is the expected one. A taken identifier never leads to a new operation,
/// and evidence is handed out only to the operation and the caller that it binds.
pub proof fn lemma_generation_fences(
    index: SnapshotIndex,
    req: GuardedRequest,
    uid: u32,
    generation: Result<WorkspaceGenerationTokenV2, String>,
    r: Result<SnapshotIndex, Response>,
)
    requires
        call_ensures(after_generation, (&index, &req, uid, generation), r),
    ensures
        ({
            let id = req.checkpoint_id@;
            &&& r is Ok ==> (generation matches Ok(g) && g@ == req.expected_generation@)
                && !index.snapshots@.contains_key(id) && !index.governed_evidence@.contains_key(id)
            &&& r matches Ok(next) ==> next.snapshots@ == index.snapshots@ && next@.head
                == index@.head
            &&& r matches Err(Response::GuardedCheckpointV2Ok { evidence }) ==> {
                &&& generation matches Ok(g)
                &&& g@ == req.expected_generation@
                &&& index.governed_evidence@.contains_key(id)
                &&& evidence@ == index.governed_evidence@[id]
                &&& binds(evidence, req, evidence.registered_path@, uid)
            }
            &&& r matches Err(e) ==> e is GuardedCheckpointV2Ok || e is GuardedCheckpointV2Rejected
            &&& (generation matches Ok(g) && g@ != req.expected_generation@) ==> (r matches Err(
                Response::GuardedCheckpointV2Rejected { code, .. },
            ) && code == GuardedCheckpointRejectionCodeV2::GenerationMismatch)
            &&& generation is Err ==> (r matches Err(
                Response::GuardedCheckpointV2Rejected { code, .. },
            ) && code == GuardedCheckpointRejectionCodeV2::DaemonNotReady)
            &&& (generation matches Ok(g) && g@ == req.expected_generation@)
                && index.snapshots@.contains_key(id) && !index.governed_evidence@.contains_key(id)
                ==> (r matches Err(Response::GuardedCheckpointV2Rejected { code, .. }) && code
                == GuardedCheckpointRejectionCodeV2::OperationConflict)
        }),
{
}

/// A guarded checkpoint begins only for a caller who is known and a workspace that is registered;
/// the request goes along unchanged, with the compact text of its metadata, and nothing is
/// attempted for metadata that is no JSON.
pub proof fn lemma_checkpoints_begin_with_the_request(
    state: DaemonState,
    caller_uid: Option<u32>,
    request: GuardedRequest,
    r: CheckpointStage,
)
    requires
        call_ensures(CheckpointStage::begin, (&state, caller_uid, request), r),
    ensures
        r is Done || r is ProbeRegistration,
        r matches CheckpointStage::Done(e) ==> e is GuardedCheckpointV2Rejected,
        r matches CheckpointStage::ProbeRegistration { admitted } ==> {
            &&& admitted.request == request
            &&& caller_uid == Some(admitted.admission.uid)
            &&& state.registry@.by_id.contains_key(request.ws_id@)
            &&& admitted.admission.registered_path@ == state.registry@.by_id[request.ws_id@].path
            &&& request.metadata is None <==> admitted.admission.metadata is None
            &&& request.metadata matches Some(t) ==> json_reading(t@) == Ok::<
                Seq<char>,
                Seq<char>,
            >(admitted.admission.metadata->0@)
        },
        caller_uid is None ==> (r matches CheckpointStage::Done(
            Response::GuardedCheckpointV2Rejected { code, .. },
        ) && code == GuardedCheckpointRejectionCodeV2::PeerCredentialsUnavailable),
        !state.registry@.by_id.contains_key(request.ws_id@) ==> r is Done,
{
}

/// Whether a stage saves an index that records the request of a checkpoint.
pub open spec fn saves_record(
    next: CheckpointStage,
    a: Admitted,
    before: SnapshotIndex,
    t: Timestamp,
) -> bool {
    &&& next matches CheckpointStage::SaveEvidence { index, evidence }
    &&& records_request(before@, index@, a.request, opt_text(a.admission.metadata), t)
    &&& binds(evidence, a.request, a.admission.registered_path@, a.admission.uid)
    &&& evidence.outcome is Created
    &&& index.governed_evidence@.contains_key(a.request.checkpoint_id@)
    &&& index.governed_evidence@[a.request.checkpoint_id@] == evidence@
}

/// A checkpoint saves what was created, as it was asked for, and only that. Memory takes over
/// what was saved, for the workspace that the evidence names and for no other, and only once it
/// was saved; the answer is the evidence that was saved.
pub proof fn lemma_checkpoints_save_what_was_created(
    stage: CheckpointStage,
    state: &mut DaemonState,
    event: CheckpointEvent,
    next: CheckpointStage,
    other: Seq<char>,
)
    requires
        call_ensures(CheckpointStage::advance, (stage, state, event), next),
    ensures
        (stage, event) matches (
            CheckpointStage::CreateSnapshot { admitted, index },
            CheckpointEvent::SnapshotCreated(created),
        ) ==> match created {
            Ok(t) => saves_record(next, admitted, index, t),
            Err(_) => next matches CheckpointStage::Done(Response::Error { code, .. }) && code
                == ErrorCode::InternalError,
        },
        (stage, event) matches (
            CheckpointStage::SaveEvidence { index, evidence },
            CheckpointEvent::EvidenceSaved(saved),
        ) ==> match saved {
            Ok(_) => {
                &&& next matches CheckpointStage::Done(Response::GuardedCheckpointV2Ok { evidence: e })
                &&& e@ == evidence@
                &&& old(state).registry@.by_id.contains_key(evidence.ws_id@) && old(state).registry@.by_id[evidence.ws_id@].ws_id == evidence.ws_id@
                    ==> final(state).registry@.by_id[evidence.ws_id@].index == index@
                &&& other != evidence.ws_id@ && old(state).registry@.keyed() ==> final(state).registry@.get(other) == old(state).registry@.get(other)
            },
            Err(_) => {
                &&& final(state).registry@ == old(state).registry@
                &&& next matches CheckpointStage::Done(e)
                &&& evidence.outcome is Created ==> e is Error
                &&& evidence.outcome is Skipped ==> e is GuardedCheckpointV2Rejected
            },
        },
        !(stage is SaveEvidence && event is EvidenceSaved) ==> final(state).registry@ == old(state).registry@,
        next matches CheckpointStage::Done(Response::GuardedCheckpointV2Ok { .. }) ==> stage
            is SaveEvidence || stage is ReadGeneration || stage is Done,
{
    if let (
        CheckpointStage::CreateSnapshot { admitted, index },
        CheckpointEvent::SnapshotCreated(Ok(t)),
    ) = (stage, event) {
        lemma_creation_records(
            index@,
            admitted.request,
            opt_text(admitted.admission.metadata),
            t,
            next->SaveEvidence_evidence@,
        );
    }
}

/// A checkpoint goes from stage to stage with its request unchanged: each check that passes leads
/// to the next one, and each that fails to a rejection.
pub proof fn lemma_checkpoint_stages_follow_each_other(
    stage: CheckpointStage,
    state: &mut DaemonState,
    event: CheckpointEvent,
    next: CheckpointStage,
)
    requires
        call_ensures(CheckpointStage::advance, (stage, state, event), next),
    ensures
        (stage, event) matches (
            CheckpointStage::ProbeRegistration { admitted },
            CheckpointEvent::RegistrationProbed { live },
        ) ==> if live {
            next == CheckpointStage::ReadGeneration { admitted }
        } else {
            next matches CheckpointStage::Done(Response::GuardedCheckpointV2Rejected { .. })
        },
        (stage, event) matches (
            CheckpointStage::ReadGeneration { admitted },
            CheckpointEvent::GenerationRead(g),
        ) ==> {
            &&& next is AwaitRest || next is Done
            &&& next matches CheckpointStage::AwaitRest { admitted: a, index } ==> a == admitted
                && old(state).registry@.by_id.contains_key(admitted.request.ws_id@)
                && index.snapshots@ == old(state).registry@.by_id[admitted.request.ws_id@].index.nodes && (g matches Ok(t) && t@
                == admitted.request.expected_generation@) && !index.snapshots@.contains_key(
                admitted.request.checkpoint_id@,
            )
        },
        (stage, event) matches (
            CheckpointStage::AwaitRest { admitted, index },
            CheckpointEvent::RestAwaited { quiescent },
        ) ==> if quiescent {
            next == CheckpointStage::InspectContents { admitted, index }
        } else {
            next matches CheckpointStage::Done(
                Response::GuardedCheckpointV2Rejected { code, .. },
            ) && code == GuardedCheckpointRejectionCodeV2::WriteLockConflict
        },
        (stage, event) matches (
            CheckpointStage::InspectContents { admitted, index },
            CheckpointEvent::ContentsInspected(contents),
        ) ==> match contents {
            Ok(true) => next matches CheckpointStage::SaveEvidence { index: i, evidence }
                && i.snapshots@ == index.snapshots@ && evidence.outcome is Skipped && binds(
                evidence,
                admitted.request,
                admitted.admission.registered_path@,
                admitted.admission.uid,
            ),
            Ok(false) => next matches CheckpointStage::CreateSnapshot { admitted: a, index: i }
                && a == admitted && i@ == index@,
            Err(_) => next matches CheckpointStage::Done(
                Response::GuardedCheckpointV2Rejected { .. },
            ),
        },
{
}

/// A query for evidence hands it out exactly where it binds the operation that is asked about to
/// the caller who asks and can still be seen; it changes nothing, and never hands out another
/// caller's.
pub proof fn lemma_evidence_is_handed_to_its_caller(
    state: DaemonState,
    caller_uid: Option<u32>,
    req: GuardedRequest,
    r: Response,
)
    requires
        call_ensures(DaemonState::checkpoint_evidence, (&state, caller_uid, &req), r),
    ensures
        r is CheckpointEvidenceV2Ok || r is GuardedCheckpointV2Rejected,
        r matches Response::CheckpointEvidenceV2Ok { evidence } ==> {
            let by_id = state.registry@.by_id;
            let index = by_id[req.ws_id@].index;
            &&& caller_uid is Some
            &&& by_id.contains_key(req.ws_id@)
            &&& evidence matches Some(e) ==> {
                &&& index.evidence.contains_key(req.checkpoint_id@)
                &&& e@ == index.evidence[req.checkpoint_id@]
                &&& binds(e, req, e.registered_path@, caller_uid->0)
                &&& e.outcome matches GuardedCheckpointOutcomeV2::Created { snapshot_id }
                    ==> index.nodes.contains_key(snapshot_id@) && !index.nodes[snapshot_id@].missing
            }
            &&& evidence is None && index.evidence.contains_key(req.checkpoint_id@) ==> {
                let e = index.evidence[req.checkpoint_id@];
                &&& e.caller_uid == caller_uid->0
                &&& e.outcome is Created
            }
        },
        (state.registry@.by_id.contains_key(req.ws_id@)
            && state.registry@.by_id[req.ws_id@].index.evidence.contains_key(req.checkpoint_id@)
            && caller_uid is Some
            && state.registry@.by_id[req.ws_id@].index.evidence[req.checkpoint_id@].caller_uid
            != caller_uid->0) ==> r is GuardedCheckpointV2Rejected,
{
}

/// The identity of a registered path is that of the workspace registered there, with the path as
/// it was asked for, the generation as it was read, and the protocol's version.
pub proof fn lemma_identities_are_of_the_path(
    ws_id: String,
    path: String,
    generation: Result<WorkspaceGenerationTokenV2, String>,
    r: Response,
)
    requires
        call_ensures(identity_answer, (ws_id, path, generation), r),
    ensures
        generation is Ok <==> r is WorkspaceIdentityV2Ok,
        r matches Response::WorkspaceIdentityV2Ok {
            protocol_version,
            ws_id: i,
            registered_path,
            generation: g,
        } ==> protocol_version == 2 && i@ == ws_id@ && registered_path@ == path@
            && generation == Ok::<WorkspaceGenerationTokenV2, String>(g),
        generation is Err ==> (r matches Response::GuardedCheckpointV2Rejected { code, .. } && code
            == GuardedCheckpointRejectionCodeV2::DaemonNotReady),
{
}

/// An identity is looked for under the very path, and given only where the path still leads to
/// the workspace after the probe.
pub proof fn lemma_identities_need_a_live_path(
    state: DaemonState,
    text: &str,
    first: IdentityStage,
    stage: IdentityStage,
    event: IdentityEvent,
    next: IdentityStage,
)
    requires
        call_ensures(IdentityStage::begin, (&state, text), first),
        call_ensures(IdentityStage::advance, (stage, &state, event), next),
    ensures
        first is Done || first is ProbeRegistration,
        first matches IdentityStage::Done(e) ==> e is GuardedCheckpointV2Rejected,
        first matches IdentityStage::ProbeRegistration { path, ws_id } ==> path@ == text@
            && state.registry@.id_at(text@) == Some(ws_id@),
        next matches IdentityStage::ReadGeneration { path, ws_id } ==> stage == next || {
            &&& stage == IdentityStage::ProbeRegistration { path, ws_id }
            &&& event matches IdentityEvent::RegistrationProbed { live }
            &&& live
            &&& state.registry@.by_id.contains_key(ws_id@)
            &&& state.registry@.by_id[ws_id@].path == path@
        },
        stage matches IdentityStage::ProbeRegistration { path, ws_id } ==> (event
            matches IdentityEvent::RegistrationProbed { live } ==> (!live ==> (next
            matches IdentityStage::Done(e) && e is GuardedCheckpointV2Rejected))),
        (stage, event) matches (
            IdentityStage::ReadGeneration { path, ws_id },
            IdentityEvent::GenerationRead(g),
        ) ==> (next matches IdentityStage::Done(e) && (g matches Ok(x) ==> (e
            matches Response::WorkspaceIdentityV2Ok { ws_id: i, registered_path, generation, .. }
            && i@ == ws_id@ && registered_path@ == path@ && generation == x))),
{
}

/// A request is let in exactly where its caller is known, both identifiers are valid and its
/// metadata is none or JSON; the first of these that does not hold is the reason of the rejection.
pub proof fn lemma_requests_are_let_in_for_cause(
    caller_uid: Option<u32>,
    uid_message: &str,
    ws_id: &str,
    checkpoint_id: &str,
    fault: Option<String>,
    workspace: Result<(), String>,
    checkpoint: Result<(), String>,
    r: Result<u32, Response>,
)
    requires
        call_ensures(validate_workspace_id_v2, (ws_id,), workspace),
        call_ensures(validate_checkpoint_id_v2, (checkpoint_id,), checkpoint),
        call_ensures(admit_request, (caller_uid, uid_message, ws_id, checkpoint_id, &fault), r),
    ensures
        r is Ok <==> caller_uid is Some && workspace is Ok && checkpoint is Ok && fault is None,
        r matches Ok(uid) ==> caller_uid == Some(uid),
        caller_uid is None ==> rejects(
            r,
            GuardedCheckpointRejectionCodeV2::PeerCredentialsUnavailable,
        ),
        caller_uid is Some && workspace is Err ==> rejects(
            r,
            GuardedCheckpointRejectionCodeV2::InvalidWorkspaceId,
        ),
        caller_uid is Some && workspace is Ok && checkpoint is Err ==> rejects(
            r,
            GuardedCheckpointRejectionCodeV2::InvalidCheckpointId,
        ),
        caller_uid is Some && workspace is Ok && checkpoint is Ok && fault is Some ==> rejects(
            r,
            GuardedCheckpointRejectionCodeV2::InvalidMetadata,
        ),
{
}

/// Whether a step ends with a rejection of that code.
pub open spec fn rejects<T>(
    r: Result<T, Response>,
    code: GuardedCheckpointRejectionCodeV2,
) -> bool {
    r matches Err(Response::GuardedCheckpointV2Rejected { code: c, .. }) && c == code
}

/// A checkpoint starts exactly where its request is let in and its workspace is registered, and
/// takes along the caller, the path that the workspace is registered at, and the metadata as it was
/// read.
pub proof fn lemma_checkpoints_start_for_registered_workspaces(
    state: DaemonState,
    caller_uid: Option<u32>,
    req: GuardedRequest,
    id: &str,
    checkpoint_id: &str,
    workspace: Result<(), String>,
    checkpoint: Result<(), String>,
    r: Result<Admission, Response>,
)
    requires
        id@ == req.ws_id@,
        checkpoint_id@ == req.checkpoint_id@,
        call_ensures(validate_workspace_id_v2, (id,), workspace),
        call_ensures(validate_checkpoint_id_v2, (checkpoint_id,), checkpoint),
        call_ensures(start_checkpoint, (&state, caller_uid, &req), r),
    ensures
        r is Ok <==> caller_uid is Some && workspace is Ok && checkpoint is Ok && (req.metadata
            matches Some(t) ==> json_reading(t@) is Ok) && state.registry@.by_id.contains_key(
            req.ws_id@,
        ),
        r matches Ok(a) ==> {
            &&& caller_uid == Some(a.uid)
            &&& a.registered_path@ == state.registry@.by_id[req.ws_id@].path
            &&& a.metadata is Some <==> req.metadata is Some
            &&& req.metadata matches Some(t) ==> json_reading(t@) == Ok::<Seq<char>, Seq<char>>(
                a.metadata->0@,
            )
        },
        r matches Err(e) ==> e is GuardedCheckpointV2Rejected,
        caller_uid is Some && workspace is Ok && checkpoint is Ok && (req.metadata matches Some(t)
            ==> json_reading(t@) is Ok) && !state.registry@.by_id.contains_key(req.ws_id@)
            ==> rejects(r, GuardedCheckpointRejectionCodeV2::WorkspaceNotFound),
{
}

/// A probe and a wait let a checkpoint go on exactly where they showed what they were to show.
pub proof fn lemma_probes_and_waits(
    live: bool,
    quiescent: bool,
    a: Result<(), Response>,
    b: Result<(), Response>,
)
    requires
        call_ensures(after_probe, (live,), a),
        call_ensures(after_quiescence, (quiescent,), b),
    ensures
        a is Ok <==> live,
        !live ==> rejects(a, GuardedCheckpointRejectionCodeV2::InvalidRegistrationPath),
        b is Ok <==> quiescent,
        !quiescent ==> rejects(b, GuardedCheckpointRejectionCodeV2::WriteLockConflict),
{
}

/// A rejection has its code and its message, and is never taken for an error that may have had an
/// effect, nor the other way round.
pub proof fn lemma_rejections_and_errors(
    code: GuardedCheckpointRejectionCodeV2,
    message: &str,
    a: Response,
    b: Response,
    c: Response,
)
    requires
        call_ensures(rejected, (code, message), a),
        call_ensures(backend_effect_error, (message,), b),
        call_ensures(workspace_not_found, (message,), c),
    ensures
        a matches Response::GuardedCheckpointV2Rejected { code: x, message: m } && x == code && m@
            == message@,
        b matches Response::Error { code: x, message: m } && x == ErrorCode::InternalError && m@
            == message@,
        c matches Response::GuardedCheckpointV2Rejected { code: x, .. } && x
            == GuardedCheckpointRejectionCodeV2::WorkspaceNotFound,
{
}

/// A finished checkpoint is in memory exactly where it was saved, in its workspace alone, and its
/// evidence is the answer. Where it was not saved, a snapshot that was created is no rejection.
pub proof fn lemma_finished_checkpoints_are_in_memory(
    state: &mut DaemonState,
    ws_id: &str,
    index: SnapshotIndex,
    evidence: GuardedCheckpointEvidenceV2,
    saved: Result<(), String>,
    r: Response,
)
    requires
        old(state).registry@.keyed(),
        call_ensures(DaemonState::finish_checkpoint, (state, ws_id, index, evidence, saved), r),
    ensures
        final(state).config == old(state).config,
        final(state).registry@.paths == old(state).registry@.paths,
        final(state).registry@.by_id.dom() == old(state).registry@.by_id.dom(),
        final(state).registry@.by_id.remove(ws_id@) == old(state).registry@.by_id.remove(ws_id@),
        saved is Ok ==> {
            &&& r matches Response::GuardedCheckpointV2Ok { evidence: e }
            &&& e@ == evidence@
            &&& old(state).registry@.by_id.contains_key(ws_id@)
                ==> final(state).registry@.by_id[ws_id@].index == index@
                && final(state).registry@.by_id[ws_id@].path == old(state).registry@.by_id[ws_id@].path
                && final(state).registry@.by_id[ws_id@].policy
                == old(state).registry@.by_id[ws_id@].policy
        },
        saved is Err ==> {
            &&& final(state).registry@ == old(state).registry@
            &&& evidence.outcome is Created ==> r is Error
            &&& evidence.outcome is Skipped ==> r is GuardedCheckpointV2Rejected
        },
{
    let a = old(state).registry@;
    let b = final(state).registry@;
    if a.by_id.contains_key(ws_id@) {
        assert(a.by_id[ws_id@].ws_id == ws_id@);
    }
    assert(b.by_id.remove(ws_id@) =~= a.by_id.remove(ws_id@));
    assert(b.by_id.dom() =~= a.by_id.dom());
}

/// Replacing the index of a workspace changes that index alone.
pub proof fn lemma_replaced_indexes(state: &mut DaemonState, ws_id: &str, index: SnapshotIndex)
    requires
        old(state).registry@.keyed(),
        call_ensures(DaemonState::set_index, (state, ws_id, index), ()),
    ensures
        final(state).config == old(state).config,
        final(state).registry@.paths == old(state).registry@.paths,
        final(state).registry@.by_id.dom() == old(state).registry@.by_id.dom(),
        final(state).registry@.by_id.remove(ws_id@) == old(state).registry@.by_id.remove(ws_id@),
        old(state).registry@.by_id.contains_key(ws_id@)
            ==> final(state).registry@.by_id[ws_id@].index == index@
            && final(state).registry@.by_id[ws_id@].path == old(state).registry@.by_id[ws_id@].path
            && final(state).registry@.by_id[ws_id@].policy
            == old(state).registry@.by_id[ws_id@].policy,
{
    let a = old(state).registry@;
    let b = final(state).registry@;
    if a.by_id.contains_key(ws_id@) {
        assert(a.by_id[ws_id@].ws_id == ws_id@);
    }
    assert(b.by_id.remove(ws_id@) =~= a.by_id.remove(ws_id@));
    assert(b.by_id.dom() =~= a.by_id.dom());
}

/// The workspace of a path is looked for where the path is valid, and is the one that the path
/// leads to. It is confirmed exactly where the path leads to the live workspace and is spelled as
/// that workspace is registered.
pub proof fn lemma_identities_go_by_the_exact_path(
    state: DaemonState,
    path: &str,
    candidate: &str,
    live: bool,
    valid: Result<(), String>,
    first: Result<String, Response>,
    second: Result<(), Response>,
)
    requires
        call_ensures(validate_registration_path, (path,), valid),
        call_ensures(DaemonState::identity_candidate, (&state, path), first),
        call_ensures(DaemonState::identity_confirm, (&state, path, candidate, live), second),
    ensures
        ({
            let key = crate::paths::normal_path(path@);
            let v = state.registry@;
            &&& first matches Ok(id) ==> valid is Ok && v.paths.contains_key(key) && v.paths[key]
                == id@
            &&& valid is Err ==> rejects(
                first,
                GuardedCheckpointRejectionCodeV2::InvalidRegistrationPath,
            )
            &&& valid is Ok && !v.paths.contains_key(key) ==> rejects(
                first,
                GuardedCheckpointRejectionCodeV2::WorkspaceNotFound,
            )
            &&& second is Ok <==> live && v.paths.contains_key(key) && v.paths[key] == candidate@
                && v.by_id.contains_key(candidate@) && v.by_id[candidate@].path == path@
            &&& second is Err ==> rejects(
                second,
                GuardedCheckpointRejectionCodeV2::WorkspaceNotFound,
            )
        }),
{
}

/// Whether an index holds the evidence of an operation, and what it attests can still be seen.
pub open spec fn attests(v: IndexView, req: GuardedRequest, uid: u32) -> bool {
    let id = req.checkpoint_id@;
    let e = v.evidence[id];
    &&& v.evidence.contains_key(id)
    &&& e.ws_id == req.ws_id@
    &&& e.generation == req.expected_generation@
    &&& e.checkpoint_id == id
    &&& e.operation_digest == req.operation_digest@
    &&& e.caller_uid == uid
    &&& e.outcome matches OutcomeView::Created { snapshot_id } ==> snapshot_id == id
        && v.nodes.contains_key(id) && !v.nodes[id].missing
}

/// The same request made again meets the evidence of the first time, and nothing is done again; any
/// other use of a taken identifier is a conflict; and a new request goes on wherever there is room
/// for its evidence.
pub proof fn lemma_nothing_is_done_twice(
    index: SnapshotIndex,
    req: GuardedRequest,
    uid: u32,
    generation: WorkspaceGenerationTokenV2,
    r: Result<SnapshotIndex, Response>,
)
    requires
        generation@ == req.expected_generation@,
        call_ensures(after_generation, (&index, &req, uid, Ok(generation)), r),
    ensures
        ({
            let id = req.checkpoint_id@;
            let taken = index.governed_evidence@.contains_key(id)
                || index.snapshots@.contains_key(id);
            &&& attests(index@, req, uid) ==> (r matches Err(
                Response::GuardedCheckpointV2Ok { evidence },
            ) && evidence@ == index.governed_evidence@[id])
            &&& taken && !attests(index@, req, uid) ==> rejects(
                r,
                GuardedCheckpointRejectionCodeV2::OperationConflict,
            )
            &&& !taken ==> r is Ok || rejects(
                r,
                GuardedCheckpointRejectionCodeV2::EvidenceCapacityReached,
            )
        }),
{
}

/// The same holds of a checkpoint that has read the live generation.
pub proof fn lemma_repeated_checkpoints_are_recognised(
    admitted: Admitted,
    state: &mut DaemonState,
    generation: Result<WorkspaceGenerationTokenV2, String>,
    next: CheckpointStage,
)
    requires
        call_ensures(
            CheckpointStage::advance,
            (
                (CheckpointStage::ReadGeneration { admitted }),
                state,
                CheckpointEvent::GenerationRead(generation),
            ),
            next,
        ),
    ensures
        ({
            let by_id = old(state).registry@.by_id;
            let req = admitted.request;
            let v = by_id[req.ws_id@].index;
            let fits = generation matches Ok(g) && g@ == req.expected_generation@;
            &&& !by_id.contains_key(req.ws_id@) ==> (next matches CheckpointStage::Done(
                Response::GuardedCheckpointV2Rejected { code, .. },
            ) && code == GuardedCheckpointRejectionCodeV2::WorkspaceNotFound)
            &&& by_id.contains_key(req.ws_id@) && fits && attests(v, req, admitted.admission.uid)
                ==> (next matches CheckpointStage::Done(
                Response::GuardedCheckpointV2Ok { evidence },
            ) && evidence@ == v.evidence[req.checkpoint_id@])
            &&& by_id.contains_key(req.ws_id@) && !fits ==> (next matches CheckpointStage::Done(e)
                && e is GuardedCheckpointV2Rejected)
            &&& next matches CheckpointStage::Done(Response::GuardedCheckpointV2Ok { .. })
                ==> attests(v, req, admitted.admission.uid)
        }),
        final(state).registry@ == old(state).registry@,
{
}

/// There is no room only where all of it is taken by evidence that may not be dropped: of snapshots
/// that are not missing.
pub proof fn lemma_room_runs_out_for_cause(index: SnapshotIndex, r: Option<SnapshotIndex>)
    requires
        call_ensures(index_with_evidence_slot, (&index,), r),
    ensures
        r is None ==> index.governed_evidence@.dom().filter(
            |k: Seq<char>|
                index.governed_evidence@[k].outcome matches OutcomeView::Created { snapshot_id }
                    && !(snapshot_id == index.governed_evidence@[k].checkpoint_id
                    && index.snapshots@.contains_key(snapshot_id)
                    && index.snapshots@[snapshot_id].missing),
        ).len() >= 256,
{
    let v = index@;
    let a = crate::guarded::fixed_evidence(v);
    let b = index.governed_evidence@.dom().filter(
        |k: Seq<char>|
            index.governed_evidence@[k].outcome matches OutcomeView::Created { snapshot_id } && !(
            snapshot_id == index.governed_evidence@[k].checkpoint_id
                && index.snapshots@.contains_key(snapshot_id)
                && index.snapshots@[snapshot_id].missing),
    );
    assert(a =~= b);
}

/// A query for evidence is answered with it exactly where the index attests the operation, and is
/// rejected exactly where the evidence is of another caller or another operation.
pub proof fn lemma_evidence_is_found(
    state: DaemonState,
    uid: u32,
    req: GuardedRequest,
    id: &str,
    checkpoint_id: &str,
    workspace: Result<(), String>,
    checkpoint: Result<(), String>,
    r: Response,
)
    requires
        id@ == req.ws_id@,
        checkpoint_id@ == req.checkpoint_id@,
        call_ensures(validate_workspace_id_v2, (id,), workspace),
        call_ensures(validate_checkpoint_id_v2, (checkpoint_id,), checkpoint),
        call_ensures(DaemonState::checkpoint_evidence, (&state, Some(uid), &req), r),
        workspace is Ok,
        checkpoint is Ok,
        state.registry@.by_id.contains_key(req.ws_id@),
    ensures
        ({
            let v = state.registry@.by_id[req.ws_id@].index;
            let k = req.checkpoint_id@;
            &&& attests(v, req, uid) ==> (r matches Response::CheckpointEvidenceV2Ok {
                evidence: Some(e),
            } && e@ == v.evidence[k])
            &&& !v.evidence.contains_key(k) ==> (r matches Response::CheckpointEvidenceV2Ok {
                evidence,
            } && evidence is None)
            &&& v.evidence.contains_key(k) && v.evidence[k].caller_uid != uid ==> (r
                matches Response::GuardedCheckpointV2Rejected { code, .. } && code
                == GuardedCheckpointRejectionCodeV2::CallerMismatch)
            &&& v.evidence.contains_key(k) && v.evidence[k].caller_uid == uid
                && v.evidence[k].operation_digest != req.operation_digest@ ==> (r
                matches Response::GuardedCheckpointV2Rejected { code, .. } && code
                == GuardedCheckpointRejectionCodeV2::OperationConflict)
            &&& r matches Response::CheckpointEvidenceV2Ok { evidence: Some(_) } ==> attests(
                v,
                req,
                uid,
            )
        }),
{
}

} // verus!
