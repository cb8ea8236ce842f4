//! Deleting snapshots and giving workspaces up, as pieces of work on the storage.
//!
//! A stage names the work that the removal waits for. What the work gave is an event, and the
//! event takes the removal to its next stage.

use crate::dispatch::after_failure;
use crate::lifecycle::{delete_planned, DeletePlan};
use crate::message::{ErrorCode, Response};
use crate::registry::{RegistryView, WorkspaceView};
use crate::state::{
    ambiguous_somewhere, not_found_message, resolved_globally, resolved_workspace,
    workspace_not_found_error, workspaces_with, DaemonState, RegistrationFacts,
};
use crate::text_list::opt_text;
use vstd::prelude::*;

verus! {

/// A snapshot that is to be deleted, as it is asked for.
pub struct DeleteRequest {
    pub workspace: String,
    pub snapshot: String,
    pub force: bool,
}

/// The work that a deletion waits for.
pub enum DeleteStage {
    /// See where the workspace text leads as a path.
    ResolvePath { request: DeleteRequest },
    /// See what the file system shows of the registration of this workspace.
    ProbeRegistration {
        request: DeleteRequest,
        canonical: Option<String>,
        ws_id: String,
        path: String,
    },
    /// Delete the subvolume of the snapshot.
    DeleteSubvolume { ws_id: String, snapshot_id: String },
    /// Save the index of the workspace, which no longer has the snapshot.
    SaveIndex { ws_id: String, snapshot_id: String },
    /// Save the manifest; the snapshot is gone whether or not that works.
    SaveManifest { snapshot_id: String },
    /// Nothing: the deletion is over.
    Done(Response),
}

/// What the work of a stage gave.
pub enum DeleteEvent {
    PathResolved(Option<String>),
    RegistrationProbed(RegistrationFacts),
    SubvolumeDeleted(Result<(), String>),
    IndexSaved(Result<(), String>),
    ManifestSaved(Result<(), String>),
}

/// Whether a stage is about to find the workspace of a snapshot that is asked for.
pub open spec fn looks_for(
    stage: DeleteStage,
    workspace: Seq<char>,
    snapshot: Seq<char>,
    force: bool,
) -> bool {
    stage matches DeleteStage::ResolvePath { request } && request.workspace@ == workspace
        && request.snapshot@ == snapshot && request.force == force
}

/// Whether a stage ends a deletion with an error.
pub open spec fn refuses(stage: DeleteStage, code: ErrorCode, message: Seq<char>) -> bool {
    stage matches DeleteStage::Done(r) && r.is_error(code, message)
}

/// Whether a stage is where a deletion goes on once it was planned: the subvolume goes first, if
/// there is one.
pub open spec fn follows_plan(stage: DeleteStage, planned: Result<DeletePlan, Response>) -> bool {
    match planned {
        Err(e) => stage == DeleteStage::Done(e),
        Ok(p) => if p.delete_subvolume {
            stage matches DeleteStage::DeleteSubvolume { ws_id, snapshot_id } && ws_id@ == p.ws_id@
                && snapshot_id@ == p.snapshot_id@
        } else {
            stage matches DeleteStage::SaveIndex { ws_id, snapshot_id } && ws_id@ == p.ws_id@
                && snapshot_id@ == p.snapshot_id@
        },
    }
}

/// Whether an event takes a deletion from a stage to the next one.
pub open spec fn delete_moves(
    state: DaemonState,
    stage: DeleteStage,
    event: DeleteEvent,
    next: DeleteStage,
) -> bool {
    match (stage, event) {
        (DeleteStage::ResolvePath { request: q }, DeleteEvent::PathResolved(c)) => {
            match resolved_workspace(state.registry@, q.workspace@, opt_text(c)) {
                None => refuses(
                    next,
                    ErrorCode::WorkspaceNotFound,
                    not_found_message(q.workspace@),
                ),
                Some(w) => next matches DeleteStage::ProbeRegistration {
                    request,
                    canonical,
                    ws_id,
                    path,
                } && request == q && canonical == c && ws_id@ == w.ws_id && path@ == w.path,
            }
        },
        (
            DeleteStage::ProbeRegistration { request, canonical, .. },
            DeleteEvent::RegistrationProbed(facts),
        ) => exists|planned: Result<DeletePlan, Response>| #[trigger]
            follows_plan(next, planned) && delete_planned(
                resolved_workspace(state.registry@, request.workspace@, opt_text(canonical)),
                request.workspace@,
                facts,
                request.snapshot@,
                request.force,
                planned,
            ),
        (
            DeleteStage::DeleteSubvolume { ws_id: w, snapshot_id: s },
            DeleteEvent::SubvolumeDeleted(deleted),
        ) => match deleted {
            Ok(_) => next matches DeleteStage::SaveIndex { ws_id, snapshot_id } && ws_id@ == w@
                && snapshot_id@ == s@,
            Err(e) => refuses(next, ErrorCode::InternalError, e@),
        },
        (DeleteStage::SaveIndex { snapshot_id: s, .. }, DeleteEvent::IndexSaved(saved)) => {
            match saved {
                Ok(_) => next matches DeleteStage::SaveManifest { snapshot_id } && snapshot_id@
                    == s@,
                Err(e) => refuses(next, ErrorCode::InternalError, e@),
            }
        },
        (DeleteStage::SaveManifest { snapshot_id }, DeleteEvent::ManifestSaved(_)) => {
            next matches DeleteStage::Done(r) && (r matches Response::DeleteOk { target }
                && target@ == snapshot_id@)
        },
        _ => next == stage,
    }
}

/// The registry without a snapshot of a workspace.
pub open spec fn without_snapshot(
    v: RegistryView,
    id: Seq<char>,
    snapshot: Seq<char>,
) -> RegistryView {
    match v.get(id) {
        Some(w) => v.updated(WorkspaceView { index: w.index.deleted(snapshot), ..w }),
        None => v,
    }
}

/// What a step makes of the registry: the snapshot leaves its index when the step leads to the
/// saving of the index.
pub open spec fn registry_after_delete(
    v: RegistryView,
    stage: DeleteStage,
    next: DeleteStage,
) -> RegistryView {
    match next {
        DeleteStage::SaveIndex { ws_id, snapshot_id } => if stage is SaveIndex {
            v
        } else {
            without_snapshot(v, ws_id@, snapshot_id@)
        },
        _ => v,
    }
}

impl DeleteStage {
    /// The first stage of a deletion. Without a workspace, the snapshot is looked for in all of
    /// them.
    pub fn begin(state: &DaemonState, workspace: Option<&str>, snapshot: &str, force: bool) -> (r:
        DeleteStage)
        ensures
            match workspace {
                Some(w) => looks_for(r, w@, snapshot@, force),
                None => match resolved_globally(state.registry@.by_id, snapshot@) {
                    Some(f) => looks_for(r, f.0, f.1, force),
                    None => refuses(
                        r,
                        ErrorCode::SnapshotNotFound,
                        if ambiguous_somewhere(state.registry@.by_id, snapshot@)
                            || workspaces_with(state.registry@.by_id, snapshot@).len() > 1 {
                            "snapshot '"@ + snapshot@
                                + "' matches in multiple workspaces, please specify --workspace/-w"@
                        } else {
                            "snapshot not found: "@ + snapshot@
                        },
                    ),
                },
            },
    {
        match workspace {
            Some(w) => DeleteStage::ResolvePath {
                request: DeleteRequest {
                    workspace: w.to_owned(),
                    snapshot: snapshot.to_owned(),
                    force,
                },
            },
            None => match state.delete_target(snapshot) {
                Ok((workspace, snapshot)) => DeleteStage::ResolvePath {
                    request: DeleteRequest { workspace, snapshot, force },
                },
                Err(e) => DeleteStage::Done(e),
            },
        }
    }

    /// The stage that an event leads to. An event that the work of this stage cannot give
    /// changes nothing.
    pub fn advance(self, state: &mut DaemonState, event: DeleteEvent) -> (next: DeleteStage)
        ensures
            delete_moves(*old(state), self, event, next),
            final(state).same_but_registry(*old(state)),
            final(state).registry@ == registry_after_delete(old(state).registry@, self, next),
    {
        match (self, event) {
            (DeleteStage::ResolvePath { request }, DeleteEvent::PathResolved(canonical)) => {
                let c: Option<&str> = match &canonical {
                    Some(t) => Some(t.as_str()),
                    None => None,
                };
                match state.resolve_workspace(request.workspace.as_str(), c) {
                    None => DeleteStage::Done(
                        workspace_not_found_error(request.workspace.as_str()),
                    ),
                    Some(w) => {
                        let ws_id = w.ws_id.clone();
                        let path = w.path.clone();
                        DeleteStage::ProbeRegistration { request, canonical, ws_id, path }
                    },
                }
            },
            (
                DeleteStage::ProbeRegistration { request, canonical, .. },
                DeleteEvent::RegistrationProbed(facts),
            ) => {
                let c: Option<&str> = match &canonical {
                    Some(t) => Some(t.as_str()),
                    None => None,
                };
                let planned = state.plan_delete(
                    request.workspace.as_str(),
                    c,
                    &facts,
                    request.snapshot.as_str(),
                    request.force,
                );
                let ghost plan = planned;
                let next = match planned {
                    Err(e) => DeleteStage::Done(e),
                    Ok(p) => if p.delete_subvolume {
                        DeleteStage::DeleteSubvolume { ws_id: p.ws_id, snapshot_id: p.snapshot_id }
                    } else {
                        state.forget_snapshot(p.ws_id.as_str(), p.snapshot_id.as_str());
                        DeleteStage::SaveIndex { ws_id: p.ws_id, snapshot_id: p.snapshot_id }
                    },
                };
                assert(follows_plan(next, plan));
                next
            },
            (
                DeleteStage::DeleteSubvolume { ws_id, snapshot_id },
                DeleteEvent::SubvolumeDeleted(deleted),
            ) => match deleted {
                Ok(_) => {
                    state.forget_snapshot(ws_id.as_str(), snapshot_id.as_str());
                    DeleteStage::SaveIndex { ws_id, snapshot_id }
                },
                Err(e) => DeleteStage::Done(after_failure(e.as_str())),
            },
            (DeleteStage::SaveIndex { snapshot_id, .. }, DeleteEvent::IndexSaved(saved)) => {
                match saved {
                    Ok(_) => DeleteStage::SaveManifest { snapshot_id },
                    Err(e) => DeleteStage::Done(after_failure(e.as_str())),
                }
            },
            (DeleteStage::SaveManifest { snapshot_id }, DeleteEvent::ManifestSaved(_)) => {
                DeleteStage::Done(Response::DeleteOk { target: snapshot_id })
            },
            (stage, _) => stage,
        }
    }
}

/// A snapshot leaves its index only when its subvolume was deleted, or was found missing before,
/// and then only under a registration that is live. Every other step leaves the registry alone.
pub proof fn lemma_snapshot_leaves_after_its_subvolume(
    state: DaemonState,
    stage: DeleteStage,
    event: DeleteEvent,
    next: DeleteStage,
)
    requires
        delete_moves(state, stage, event, next),
        registry_after_delete(state.registry@, stage, next) != state.registry@,
    ensures
        match (stage, event) {
            (DeleteStage::DeleteSubvolume { .. }, DeleteEvent::SubvolumeDeleted(d)) => d is Ok,
            (
                DeleteStage::ProbeRegistration { request, canonical, .. },
                DeleteEvent::RegistrationProbed(facts),
            ) => {
                &&& facts.live()
                &&& next matches DeleteStage::SaveIndex { ws_id, snapshot_id }
                &&& resolved_workspace(state.registry@, request.workspace@, opt_text(canonical))
                    matches Some(w)
                &&& w.ws_id == ws_id@
                &&& w.index.nodes[snapshot_id@].missing
            },
            _ => false,
        },
{
}

/// The work that giving a workspace up waits for.
pub enum TeardownStage {
    /// See where the workspace text leads as a path.
    ResolvePath { workspace: String },
    /// Bring the content of the workspace back to its path, and delete its subvolumes.
    RecoverStorage { ws_id: String, path: String },
    /// Delete the directory of the index, so that a workspace at the same path starts afresh.
    /// The workspace is given up whether or not that works.
    WipeIndex { ws_id: String, path: String },
    /// Save the manifest; again whether or not that works.
    SaveManifest { path: String },
    /// Nothing: the workspace was given up, or not.
    Done(Response),
}

/// What the work of a stage gave.
pub enum TeardownEvent {
    PathResolved(Option<String>),
    StorageRecovered(Result<(), String>),
    IndexWiped(Result<(), String>),
    ManifestSaved(Result<(), String>),
}

/// Whether an event takes the giving up of a workspace from a stage to the next one.
pub open spec fn teardown_moves(
    state: DaemonState,
    stage: TeardownStage,
    event: TeardownEvent,
    next: TeardownStage,
) -> bool {
    match (stage, event) {
        (TeardownStage::ResolvePath { workspace }, TeardownEvent::PathResolved(canonical)) => {
            match resolved_workspace(state.registry@, workspace@, opt_text(canonical)) {
                None => next matches TeardownStage::Done(r) && r.is_error(
                    ErrorCode::WorkspaceNotFound,
                    not_found_message(workspace@),
                ),
                Some(w) => next matches TeardownStage::RecoverStorage { ws_id, path } && ws_id@
                    == w.ws_id && path@ == w.path,
            }
        },
        (
            TeardownStage::RecoverStorage { ws_id: w, path: p },
            TeardownEvent::StorageRecovered(recovered),
        ) => match recovered {
            Ok(_) => next matches TeardownStage::WipeIndex { ws_id, path } && ws_id@ == w@ && path@
                == p@,
            Err(e) => next matches TeardownStage::Done(r) && r.is_error(
                ErrorCode::InternalError,
                e@,
            ),
        },
        (TeardownStage::WipeIndex { path: p, .. }, TeardownEvent::IndexWiped(_)) => {
            next matches TeardownStage::SaveManifest { path } && path@ == p@
        },
        (TeardownStage::SaveManifest { path }, TeardownEvent::ManifestSaved(_)) => {
            next matches TeardownStage::Done(r) && (r matches Response::RecoverOk { workspace }
                && workspace@ == path@)
        },
        _ => next == stage,
    }
}

/// What an event makes of the registry: the workspace leaves it when its storage was recovered.
pub open spec fn registry_after_teardown(
    v: RegistryView,
    stage: TeardownStage,
    event: TeardownEvent,
) -> RegistryView {
    match (stage, event) {
        (
            TeardownStage::RecoverStorage { ws_id, .. },
            TeardownEvent::StorageRecovered(Ok(_)),
        ) => v.unregistered(ws_id@),
        _ => v,
    }
}

impl TeardownStage {
    /// The first stage of giving a workspace up.
    pub fn begin(workspace: &str) -> (r: TeardownStage)
        ensures
            r matches TeardownStage::ResolvePath { workspace: w } && w@ == workspace@,
    {
        TeardownStage::ResolvePath { workspace: workspace.to_owned() }
    }

    /// The stage that an event leads to. An event that the work of this stage cannot give
    /// changes nothing.
    pub fn advance(self, state: &mut DaemonState, event: TeardownEvent) -> (next: TeardownStage)
        ensures
            teardown_moves(*old(state), self, event, next),
            final(state).same_but_registry(*old(state)),
            final(state).registry@ == registry_after_teardown(old(state).registry@, self, event),
    {
        match (self, event) {
            (TeardownStage::ResolvePath { workspace }, TeardownEvent::PathResolved(canonical)) => {
                let c: Option<&str> = match &canonical {
                    Some(t) => Some(t.as_str()),
                    None => None,
                };
                match state.plan_recover(workspace.as_str(), c) {
                    Ok((ws_id, path)) => TeardownStage::RecoverStorage { ws_id, path },
                    Err(e) => TeardownStage::Done(e),
                }
            },
            (
                TeardownStage::RecoverStorage { ws_id, path },
                TeardownEvent::StorageRecovered(recovered),
            ) => match recovered {
                Ok(_) => {
                    state.unregister_workspace(ws_id.as_str());
                    TeardownStage::WipeIndex { ws_id, path }
                },
                Err(e) => TeardownStage::Done(after_failure(e.as_str())),
            },
            (TeardownStage::WipeIndex { path, .. }, TeardownEvent::IndexWiped(_)) => {
                TeardownStage::SaveManifest { path }
            },
            (TeardownStage::SaveManifest { path }, TeardownEvent::ManifestSaved(_)) => {
                TeardownStage::Done(Response::RecoverOk { workspace: path })
            },
            (stage, _) => stage,
        }
    }
}

/// A workspace is forgotten only once its content is back at its path, and then it is gone: no
/// later failure brings it back into the registry, or keeps the answer from saying so.
pub proof fn lemma_workspace_leaves_after_its_storage(
    state: DaemonState,
    stage: TeardownStage,
    event: TeardownEvent,
    next: TeardownStage,
)
    requires
        teardown_moves(state, stage, event, next),
    ensures
        registry_after_teardown(state.registry@, stage, event) != state.registry@ ==> stage
            is RecoverStorage && next is WipeIndex && (event
            matches TeardownEvent::StorageRecovered(r) && r is Ok),
        stage is WipeIndex && event is IndexWiped ==> next is SaveManifest,
        stage is SaveManifest && event is ManifestSaved ==> (next matches TeardownStage::Done(r)
            && r is RecoverOk),
        stage matches TeardownStage::RecoverStorage { ws_id, .. } ==> next is WipeIndex ==> (
        registry_after_teardown(state.registry@, stage, event).get(ws_id@) is None),
{
}

} // verus!
