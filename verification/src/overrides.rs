//! Changing the policy of a workspace, as pieces of work on its policy file.
//!
//! A stage names the work that the change waits for. What the work gave is an event, and the
//! event takes the change to its end. What is in memory follows the file, and never leads it.

use crate::config::WsCkptError;
use crate::message::{ErrorCode, Response};
use crate::policy::{
    global_view, keep_op, LoadPolicyOutcome, PolicyFieldOp, PolicyView, WorkspacePolicy,
};
use crate::registry::{RegistryView, WorkspaceView};
use crate::retention::CleanupRetention;
use crate::state::{
    failsafe_message, is_policy_report, not_found_message, plan_patch, policies_reloaded,
    reports_config, resolved_workspace, workspace_not_found_error, DaemonState,
};
use crate::text_list::opt_str;
use vstd::prelude::*;

verus! {

/// What to do about a policy.
pub enum PolicyChange {
    /// Read the file again.
    Reload,
    /// Drop the override.
    Reset,
    /// Change some fields of the override.
    Patch {
        auto_cleanup: PolicyFieldOp<bool>,
        auto_cleanup_keep: PolicyFieldOp<CleanupRetention>,
    },
}

/// The work that a change waits for.
pub enum PolicyStage {
    /// Load the policy file of the workspace.
    LoadFile { ws_id: String },
    /// Delete the policy file; it need not be there.
    DeleteFile { ws_id: String },
    /// Save the policy file.
    SaveFile { ws_id: String, policy: WorkspacePolicy },
    /// Nothing: the change is over.
    Done(Response),
}

/// What the work of a stage gave.
pub enum PolicyEvent {
    Loaded(Result<LoadPolicyOutcome, WsCkptError>),
    Deleted(Result<(), String>),
    Saved(Result<(), String>),
}

/// Whether a stage is where a change begins that is asked of a workspace.
pub open spec fn begins(change: PolicyChange, w: WorkspaceView, stage: PolicyStage) -> bool {
    match change {
        PolicyChange::Reload => stage matches PolicyStage::LoadFile { ws_id } && ws_id@ == w.ws_id,
        PolicyChange::Reset => stage matches PolicyStage::DeleteFile { ws_id } && ws_id@ == w.ws_id,
        PolicyChange::Patch { auto_cleanup, auto_cleanup_keep } => if w.policy_failsafe {
            stage matches PolicyStage::Done(r) && r.is_error(
                ErrorCode::InternalError,
                failsafe_message(w.ws_id),
            )
        } else {
            stage matches PolicyStage::SaveFile { ws_id, policy } && ws_id@ == w.ws_id && policy@
                == w.policy.patched(auto_cleanup, keep_op(auto_cleanup_keep))
        },
    }
}

/// The registry with the policy of a workspace replaced, if it is registered.
pub open spec fn with_policy(
    v: RegistryView,
    id: Seq<char>,
    policy: PolicyView,
    failsafe: bool,
) -> RegistryView {
    match v.get(id) {
        Some(w) => v.updated(WorkspaceView { policy, policy_failsafe: failsafe, ..w }),
        None => v,
    }
}

/// What an event makes of the registry.
pub open spec fn registry_after(
    v: RegistryView,
    stage: PolicyStage,
    event: PolicyEvent,
) -> RegistryView {
    match (stage, event) {
        (PolicyStage::LoadFile { ws_id }, PolicyEvent::Loaded(outcome)) => policies_reloaded(
            v,
            seq![(ws_id@, outcome)],
        ),
        (PolicyStage::DeleteFile { ws_id }, PolicyEvent::Deleted(Ok(_))) => with_policy(
            v,
            ws_id@,
            PolicyView::inherit(),
            false,
        ),
        (PolicyStage::SaveFile { ws_id, policy }, PolicyEvent::Saved(Ok(_))) => match v.get(
            ws_id@,
        ) {
            Some(w) => v.updated(WorkspaceView { policy: policy@, ..w }),
            None => v,
        },
        _ => v,
    }
}

/// Whether an event takes a change from a stage to the next one.
pub open spec fn policy_moves(
    state: DaemonState,
    stage: PolicyStage,
    event: PolicyEvent,
    next: PolicyStage,
) -> bool {
    let global = global_view(state.config);
    match (stage, event) {
        (PolicyStage::LoadFile { .. }, PolicyEvent::Loaded(_)) => {
            &&& next matches PolicyStage::Done(r)
            &&& r matches Response::ReloadConfigOk { config, file }
            &&& reports_config(config, state.config)
            &&& file is None
        },
        (PolicyStage::DeleteFile { ws_id }, PolicyEvent::Deleted(deleted)) => {
            &&& next matches PolicyStage::Done(r)
            &&& match deleted {
                Ok(_) => is_policy_report(r, ws_id@, PolicyView::inherit(), global),
                Err(e) => r.is_error(
                    ErrorCode::InternalError,
                    "Failed to delete policy.toml: "@ + e@,
                ),
            }
        },
        (PolicyStage::SaveFile { ws_id, policy }, PolicyEvent::Saved(saved)) => {
            &&& next matches PolicyStage::Done(r)
            &&& match saved {
                Ok(_) => is_policy_report(r, ws_id@, policy@, global),
                Err(e) => r.is_error(
                    ErrorCode::InternalError,
                    "Failed to persist policy.toml: "@ + e@,
                ),
            }
        },
        _ => next == stage,
    }
}

impl PolicyStage {
    /// The first stage of a change. `canonical` is where the workspace text leads as a path.
    pub fn begin(
        state: &DaemonState,
        workspace: &str,
        canonical: Option<&str>,
        change: PolicyChange,
    ) -> (r: PolicyStage)
        ensures
            match resolved_workspace(state.registry@, workspace@, opt_str(canonical)) {
                None => r matches PolicyStage::Done(a) && a.is_error(
                    ErrorCode::WorkspaceNotFound,
                    not_found_message(workspace@),
                ),
                Some(w) => begins(change, w, r),
            },
    {
        match state.resolve_workspace(workspace, canonical) {
            None => PolicyStage::Done(workspace_not_found_error(workspace)),
            Some(w) => match change {
                PolicyChange::Reload => PolicyStage::LoadFile { ws_id: w.ws_id.clone() },
                PolicyChange::Reset => PolicyStage::DeleteFile { ws_id: w.ws_id.clone() },
                PolicyChange::Patch { auto_cleanup, auto_cleanup_keep } => {
                    match plan_patch(w, auto_cleanup, auto_cleanup_keep) {
                        Ok(policy) => PolicyStage::SaveFile { ws_id: w.ws_id.clone(), policy },
                        Err(e) => PolicyStage::Done(e),
                    }
                },
            },
        }
    }

    /// The stage that an event leads to. An event that the work of this stage cannot give
    /// changes nothing.
    pub fn advance(self, state: &mut DaemonState, event: PolicyEvent) -> (next: PolicyStage)
        ensures
            policy_moves(*old(state), self, event, next),
            final(state).same_but_registry(*old(state)),
            final(state).registry@ == registry_after(old(state).registry@, self, event),
    {
        match (self, event) {
            (PolicyStage::LoadFile { ws_id }, PolicyEvent::Loaded(outcome)) => {
                state.reload_workspace_policy(ws_id.as_str(), outcome);
                PolicyStage::Done(
                    Response::ReloadConfigOk { config: state.config.report(), file: None },
                )
            },
            (PolicyStage::DeleteFile { ws_id }, PolicyEvent::Deleted(deleted)) => PolicyStage::Done(
                state.finish_reset(ws_id.as_str(), deleted),
            ),
            (PolicyStage::SaveFile { ws_id, policy }, PolicyEvent::Saved(saved)) => {
                PolicyStage::Done(state.finish_patch(ws_id.as_str(), policy, saved))
            },
            (stage, _) => stage,
        }
    }
}

/// Whether the work of a stage failed.
pub open spec fn work_failed(event: PolicyEvent) -> bool {
    match event {
        PolicyEvent::Loaded(r) => r is Err,
        PolicyEvent::Deleted(r) => r is Err,
        PolicyEvent::Saved(r) => r is Err,
    }
}

/// Memory follows the file and never leads it: where the work on the file failed, the policies
/// in memory are as they were.
pub proof fn lemma_memory_follows_the_file(
    v: RegistryView,
    stage: PolicyStage,
    event: PolicyEvent,
)
    requires
        v.keyed(),
        work_failed(event),
    ensures
        registry_after(v, stage, event) == v,
{
    if let (PolicyStage::LoadFile { ws_id }, PolicyEvent::Loaded(outcome)) = (stage, event) {
        crate::state::lemma_unreadable_policies_change_nothing(v, seq![(ws_id@, outcome)]);
    }
}

/// A policy that stands in for one that could not be read is never saved: a change of its fields
/// is refused until the file is read, or the override is dropped.
pub proof fn lemma_stand_in_is_not_saved(change: PolicyChange, w: WorkspaceView, stage: PolicyStage)
    requires
        w.policy_failsafe,
        begins(change, w, stage),
    ensures
        !(stage is SaveFile),
{
}

} // verus!
