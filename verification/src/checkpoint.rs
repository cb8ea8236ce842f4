//! A guarded checkpoint, as a sequence of pieces of work on the file system.
//!
//! A stage names the work that the checkpoint waits for. What the work showed is an event, and
//! the event takes the checkpoint to its next stage. Only an event that says that the index was
//! saved changes the daemon's state.

use crate::guarded::{
    after_creation, after_generation, after_inspection, after_probe, after_quiescence, evidence_of,
    fixed_evidence, generation_rejection, identity_answer, is_identity, is_unregistered, makes_room,
    metadata_fault, new_record, recorded_metadata, registers, request_rejection, skipped_outcome,
    standing, start_checkpoint, workspace_not_found, Admission, GuardedRequest, NextMove, Standing,
    GUARDED_CHECKPOINT_EVIDENCE_LIMIT_V2,
};
use crate::ids::workspace_id_fault;
use crate::index::{IndexView, SnapshotIndex};
use crate::message::{ErrorCode, GuardedCheckpointRejectionCodeV2, Response};
use crate::paths::registration_path_fault;
use crate::registry::WorkspaceView;
use crate::snapshot::{
    EvidenceView, GuardedCheckpointEvidenceV2, OutcomeView, Timestamp, WorkspaceGenerationTokenV2,
};
use crate::state::DaemonState;
use crate::text_list::opt_text;
use vstd::prelude::*;

verus! {

/// A request that was let in.
pub struct Admitted {
    pub request: GuardedRequest,
    pub admission: Admission,
}

/// The work that a guarded checkpoint waits for.
pub enum CheckpointStage {
    /// See whether the registered path leads to the live subvolume.
    ProbeRegistration { admitted: Admitted },
    /// Read the generation of the live subvolume.
    ReadGeneration { admitted: Admitted },
    /// See whether the workspace is at rest. `index` has room for the evidence.
    AwaitRest { admitted: Admitted, index: SnapshotIndex },
    /// See whether the live subvolume is empty.
    InspectContents { admitted: Admitted, index: SnapshotIndex },
    /// Create the snapshot.
    CreateSnapshot { admitted: Admitted, index: SnapshotIndex },
    /// Save the index with the evidence durably.
    SaveEvidence { index: SnapshotIndex, evidence: GuardedCheckpointEvidenceV2 },
    /// Nothing: the checkpoint is over.
    Done(Response),
}

/// What the work of a stage showed.
pub enum CheckpointEvent {
    RegistrationProbed { live: bool },
    GenerationRead(Result<WorkspaceGenerationTokenV2, String>),
    RestAwaited { quiescent: bool },
    /// Whether there is nothing in the live subvolume, or why that could not be seen.
    ContentsInspected(Result<bool, String>),
    /// When the snapshot was created, or why it was not.
    SnapshotCreated(Result<Timestamp, String>),
    EvidenceSaved(Result<(), String>),
}

/// Whether a stage ends the checkpoint with a rejection.
pub open spec fn rejects_with(
    stage: CheckpointStage,
    code: GuardedCheckpointRejectionCodeV2,
    message: Seq<char>,
) -> bool {
    stage matches CheckpointStage::Done(r) && r.is_rejection(code, message)
}

/// Whether a stage ends the checkpoint with an error.
pub open spec fn errs_with(stage: CheckpointStage, message: Seq<char>) -> bool {
    stage matches CheckpointStage::Done(r) && r.is_error(ErrorCode::InternalError, message)
}

/// Whether a stage ends the checkpoint with evidence.
pub open spec fn attests(stage: CheckpointStage, e: EvidenceView) -> bool {
    stage matches CheckpointStage::Done(r) && (r matches Response::GuardedCheckpointV2Ok {
        evidence,
    } && evidence@ == e)
}

/// Whether a stage is about to save evidence.
pub open spec fn saves(stage: CheckpointStage, index: IndexView, e: EvidenceView) -> bool {
    stage matches CheckpointStage::SaveEvidence { index: i, evidence } && i@ == index && evidence@
        == e
}

/// What the live generation, and what is recorded of the checkpoint, lead to.
pub open spec fn moves_after_generation(
    state: DaemonState,
    a: Admitted,
    generation: Result<WorkspaceGenerationTokenV2, String>,
    next: CheckpointStage,
) -> bool {
    match state.registry@.get(a.request.ws_id@) {
        None => next matches CheckpointStage::Done(r) && is_unregistered(r, a.request.ws_id@),
        Some(w) => match generation_rejection(generation, a.request) {
            Some(f) => rejects_with(next, f.0, f.1),
            None => match standing(w.index, a.request, a.admission.uid) {
                Standing::Done(e) => attests(next, e),
                Standing::Conflict(m) => rejects_with(
                    next,
                    GuardedCheckpointRejectionCodeV2::OperationConflict,
                    m,
                ),
                Standing::New => match next {
                    CheckpointStage::AwaitRest { admitted, index } => admitted == a && makes_room(
                        w.index,
                        index@,
                    ),
                    _ => fixed_evidence(w.index).len() >= GUARDED_CHECKPOINT_EVIDENCE_LIMIT_V2
                        && rejects_with(
                        next,
                        GuardedCheckpointRejectionCodeV2::EvidenceCapacityReached,
                        "guarded evidence capacity is occupied by visible snapshots"@,
                    ),
                },
            },
        },
    }
}

/// Whether an event takes a checkpoint from a stage to the next one.
pub open spec fn checkpoint_moves(
    state: DaemonState,
    stage: CheckpointStage,
    event: CheckpointEvent,
    next: CheckpointStage,
) -> bool {
    match (stage, event) {
        (
            CheckpointStage::ProbeRegistration { admitted },
            CheckpointEvent::RegistrationProbed { live },
        ) => if live {
            next == CheckpointStage::ReadGeneration { admitted }
        } else {
            rejects_with(
                next,
                GuardedCheckpointRejectionCodeV2::InvalidRegistrationPath,
                "registered workspace path no longer resolves to the live subvolume"@,
            )
        },
        (CheckpointStage::ReadGeneration { admitted }, CheckpointEvent::GenerationRead(g)) => {
            moves_after_generation(state, admitted, g, next)
        },
        (
            CheckpointStage::AwaitRest { admitted, index },
            CheckpointEvent::RestAwaited { quiescent },
        ) => if quiescent {
            next == CheckpointStage::InspectContents { admitted, index }
        } else {
            rejects_with(
                next,
                GuardedCheckpointRejectionCodeV2::WriteLockConflict,
                "workspace has active write operations; retry after it becomes quiescent"@,
            )
        },
        (
            CheckpointStage::InspectContents { admitted: a, index },
            CheckpointEvent::ContentsInspected(contents),
        ) => match contents {
            Err(e) => rejects_with(
                next,
                GuardedCheckpointRejectionCodeV2::DaemonNotReady,
                "failed to inspect workspace contents: "@ + e@,
            ),
            Ok(true) => {
                let e = evidence_of(
                    a.request,
                    a.admission.registered_path@,
                    a.admission.uid,
                    skipped_outcome(),
                );
                saves(next, index@.with_evidence(a.request.checkpoint_id@, e), e)
            },
            Ok(false) => next matches CheckpointStage::CreateSnapshot { admitted, index: i }
                && admitted == a && i@ == index@,
        },
        (
            CheckpointStage::CreateSnapshot { admitted: a, index },
            CheckpointEvent::SnapshotCreated(created),
        ) => match created {
            Err(e) => errs_with(
                next,
                "guarded checkpoint backend operation failed; reconcile before retrying: "@ + e@,
            ),
            Ok(t) => {
                let e = evidence_of(
                    a.request,
                    a.admission.registered_path@,
                    a.admission.uid,
                    OutcomeView::Created { snapshot_id: a.request.checkpoint_id@ },
                );
                saves(
                    next,
                    index@.checkpointed(
                        a.request.checkpoint_id@,
                        new_record(a.request, opt_text(a.admission.metadata), t@),
                    ).with_evidence(a.request.checkpoint_id@, e),
                    e,
                )
            },
        },
        (
            CheckpointStage::SaveEvidence { index, evidence },
            CheckpointEvent::EvidenceSaved(saved),
        ) => match saved {
            Ok(_) => attests(next, evidence@),
            Err(e) => if evidence@.outcome is Created {
                errs_with(
                    next,
                    "snapshot was created but durable evidence save failed; reconcile before retrying: "@
                        + e@,
                )
            } else {
                rejects_with(
                    next,
                    GuardedCheckpointRejectionCodeV2::DaemonNotReady,
                    "failed to durably save skipped checkpoint evidence: "@ + e@,
                )
            },
        },
        _ => next == stage,
    }
}

impl CheckpointStage {
    /// The first stage of a guarded checkpoint.
    pub fn begin(state: &DaemonState, caller_uid: Option<u32>, request: GuardedRequest) -> (r:
        CheckpointStage)
        ensures
            match request_rejection(
                caller_uid,
                "guarded checkpoint requires kernel peer credentials"@,
                request.ws_id@,
                request.checkpoint_id@,
                metadata_fault(opt_text(request.metadata)),
            ) {
                Some(f) => rejects_with(r, f.0, f.1),
                None => match state.registry@.get(request.ws_id@) {
                    None => r matches CheckpointStage::Done(a) && is_unregistered(a, request.ws_id@),
                    Some(w) => {
                        &&& r matches CheckpointStage::ProbeRegistration { admitted }
                        &&& admitted.request == request
                        &&& caller_uid == Some(admitted.admission.uid)
                        &&& admitted.admission.registered_path@ == w.path
                        &&& opt_text(admitted.admission.metadata) == recorded_metadata(
                            opt_text(request.metadata),
                        )
                    },
                },
            },
    {
        match start_checkpoint(state, caller_uid, &request) {
            Ok(admission) => CheckpointStage::ProbeRegistration {
                admitted: Admitted { request, admission },
            },
            Err(e) => CheckpointStage::Done(e),
        }
    }

    /// The stage that an event leads to. An event that the work of this stage cannot show
    /// changes nothing. The workspace takes its new index over once that was saved.
    pub fn advance(self, state: &mut DaemonState, event: CheckpointEvent) -> (next: CheckpointStage)
        ensures
            checkpoint_moves(*old(state), self, event, next),
            match (self, event) {
                (
                    CheckpointStage::SaveEvidence { index, evidence },
                    CheckpointEvent::EvidenceSaved(Ok(_)),
                ) => {
                    &&& final(state).same_but_registry(*old(state))
                    &&& final(state).registry@ == match old(state).registry@.get(evidence@.ws_id) {
                        Some(w) => old(state).registry@.updated(
                            WorkspaceView { index: index@, ..w },
                        ),
                        None => old(state).registry@,
                    }
                },
                _ => final(state).same_but_registry(*old(state)) && final(state).registry@ == old(
                    state,
                ).registry@,
            },
    {
        match (self, event) {
            (
                CheckpointStage::ProbeRegistration { admitted },
                CheckpointEvent::RegistrationProbed { live },
            ) => match after_probe(live) {
                Ok(_) => CheckpointStage::ReadGeneration { admitted },
                Err(e) => CheckpointStage::Done(e),
            },
            (CheckpointStage::ReadGeneration { admitted }, CheckpointEvent::GenerationRead(g)) => {
                match state.get_by_wsid(admitted.request.ws_id.as_str()) {
                    None => CheckpointStage::Done(
                        workspace_not_found(admitted.request.ws_id.as_str()),
                    ),
                    Some(w) => match after_generation(
                        &w.index,
                        &admitted.request,
                        admitted.admission.uid,
                        g,
                    ) {
                        Ok(index) => CheckpointStage::AwaitRest { admitted, index },
                        Err(e) => CheckpointStage::Done(e),
                    },
                }
            },
            (
                CheckpointStage::AwaitRest { admitted, index },
                CheckpointEvent::RestAwaited { quiescent },
            ) => match after_quiescence(quiescent) {
                Ok(_) => CheckpointStage::InspectContents { admitted, index },
                Err(e) => CheckpointStage::Done(e),
            },
            (
                CheckpointStage::InspectContents { admitted, index },
                CheckpointEvent::ContentsInspected(contents),
            ) => {
                match after_inspection(index, &admitted.request, &admitted.admission, contents) {
                    NextMove::SaveSkipped { index, evidence } => CheckpointStage::SaveEvidence {
                        index,
                        evidence,
                    },
                    NextMove::CreateSnapshot { index } => CheckpointStage::CreateSnapshot {
                        admitted,
                        index,
                    },
                    NextMove::Reply(r) => CheckpointStage::Done(r),
                }
            },
            (
                CheckpointStage::CreateSnapshot { admitted, index },
                CheckpointEvent::SnapshotCreated(created),
            ) => {
                match after_creation(index, &admitted.request, &admitted.admission, created) {
                    Ok((index, evidence)) => CheckpointStage::SaveEvidence { index, evidence },
                    Err(e) => CheckpointStage::Done(e),
                }
            },
            (
                CheckpointStage::SaveEvidence { index, evidence },
                CheckpointEvent::EvidenceSaved(saved),
            ) => {
                let ws_id = evidence.ws_id.clone();
                CheckpointStage::Done(
                    state.finish_checkpoint(ws_id.as_str(), index, evidence, saved),
                )
            },
            (stage, _) => stage,
        }
    }
}

/// The work that finding the identity of a registered path waits for.
pub enum IdentityStage {
    /// See whether the path leads to the live subvolume of the workspace.
    ProbeRegistration { path: String, ws_id: String },
    /// Read the generation of the live subvolume.
    ReadGeneration { path: String, ws_id: String },
    /// Nothing: the identity was found, or not.
    Done(Response),
}

/// What the work of a stage showed.
pub enum IdentityEvent {
    RegistrationProbed { live: bool },
    GenerationRead(Result<WorkspaceGenerationTokenV2, String>),
}

/// Whether an event takes the search for an identity from a stage to the next one. The
/// registration is looked at again after the probe, since it may have changed meanwhile.
pub open spec fn identity_moves(
    state: DaemonState,
    stage: IdentityStage,
    event: IdentityEvent,
    next: IdentityStage,
) -> bool {
    match (stage, event) {
        (
            IdentityStage::ProbeRegistration { path, ws_id },
            IdentityEvent::RegistrationProbed { live },
        ) => if live && registers(state.registry@, path@, ws_id@) {
            next == IdentityStage::ReadGeneration { path, ws_id }
        } else {
            next matches IdentityStage::Done(r) && is_unregistered(r, path@)
        },
        (IdentityStage::ReadGeneration { path, ws_id }, IdentityEvent::GenerationRead(g)) => {
            &&& next matches IdentityStage::Done(r)
            &&& is_identity(r, ws_id@, path@, g)
        },
        _ => next == stage,
    }
}

impl IdentityStage {
    /// The first stage of finding the identity of a registered path. The path is taken as it is
    /// spelled: nothing is resolved, initialized or repaired.
    pub fn begin(state: &DaemonState, registration_path: &str) -> (r: IdentityStage)
        ensures
            match registration_path_fault(registration_path@) {
                Some(m) => r matches IdentityStage::Done(a) && a.is_rejection(
                    GuardedCheckpointRejectionCodeV2::InvalidRegistrationPath,
                    m,
                ),
                None => match state.registry@.id_at(registration_path@) {
                    None => r matches IdentityStage::Done(a) && is_unregistered(
                        a,
                        registration_path@,
                    ),
                    Some(id) => match workspace_id_fault(id) {
                        Some(m) => r matches IdentityStage::Done(a) && a.is_rejection(
                            GuardedCheckpointRejectionCodeV2::InvalidWorkspaceId,
                            m,
                        ),
                        None => r matches IdentityStage::ProbeRegistration { path, ws_id } && path@
                            == registration_path@ && ws_id@ == id,
                    },
                },
            },
    {
        match state.identity_candidate(registration_path) {
            Ok(ws_id) => IdentityStage::ProbeRegistration {
                path: registration_path.to_owned(),
                ws_id,
            },
            Err(e) => IdentityStage::Done(e),
        }
    }

    /// The stage that an event leads to. An event that the work of this stage cannot show
    /// changes nothing.
    pub fn advance(self, state: &DaemonState, event: IdentityEvent) -> (next: IdentityStage)
        ensures
            identity_moves(*state, self, event, next),
    {
        match (self, event) {
            (
                IdentityStage::ProbeRegistration { path, ws_id },
                IdentityEvent::RegistrationProbed { live },
            ) => match state.identity_confirm(path.as_str(), ws_id.as_str(), live) {
                Ok(_) => IdentityStage::ReadGeneration { path, ws_id },
                Err(e) => IdentityStage::Done(e),
            },
            (IdentityStage::ReadGeneration { path, ws_id }, IdentityEvent::GenerationRead(g)) => {
                IdentityStage::Done(identity_answer(ws_id, path, g))
            },
            (stage, _) => stage,
        }
    }
}

/// Whether the work of a stage may change the storage, or already has.
pub open spec fn may_have_effect(stage: CheckpointStage) -> bool {
    match stage {
        CheckpointStage::CreateSnapshot { .. } => true,
        CheckpointStage::SaveEvidence { evidence, .. } => evidence@.outcome is Created,
        _ => false,
    }
}

/// A rejection promises that nothing was done: once the storage may have changed, a checkpoint
/// ends with its evidence or with an error, never with a rejection.
pub proof fn lemma_no_rejection_after_an_effect(
    state: DaemonState,
    stage: CheckpointStage,
    event: CheckpointEvent,
    next: CheckpointStage,
)
    requires
        checkpoint_moves(state, stage, event, next),
        may_have_effect(stage),
    ensures
        may_have_effect(next) || next is Done,
        next matches CheckpointStage::Done(r) ==> !(r is GuardedCheckpointV2Rejected),
{
}

/// A snapshot is created only for a request whose generation is the live one, of which nothing
/// is recorded, while the workspace is at rest and not empty: the stages before it are passed in
/// this order, and no other stage leads there.
pub proof fn lemma_effect_is_fenced(
    state: DaemonState,
    stage: CheckpointStage,
    event: CheckpointEvent,
    next: CheckpointStage,
)
    requires
        checkpoint_moves(state, stage, event, next),
        next != stage,
    ensures
        next is CreateSnapshot ==> stage is InspectContents && (event
            matches CheckpointEvent::ContentsInspected(contents) && contents == Ok::<bool, String>(
            false,
        )),
        next is InspectContents ==> stage is AwaitRest && (event
            matches CheckpointEvent::RestAwaited { quiescent } && quiescent),
        next matches CheckpointStage::AwaitRest { admitted, .. } ==> {
            &&& stage == CheckpointStage::ReadGeneration { admitted }
            &&& event matches CheckpointEvent::GenerationRead(g)
            &&& g matches Ok(t)
            &&& t@ == admitted.request.expected_generation@
            &&& state.registry@.get(admitted.request.ws_id@) matches Some(w)
            &&& standing(w.index, admitted.request, admitted.admission.uid) is New
        },
        next is ReadGeneration ==> stage is ProbeRegistration && (event
            matches CheckpointEvent::RegistrationProbed { live } && live),
        !(next is ProbeRegistration),
{
}

} // verus!
