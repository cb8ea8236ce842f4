//! Deciding how a request is carried out.
//!
//! Carrying a request out alternates decisions, made here, with work of the daemon: bringing the
//! storage up, initializing a workspace on first use, and the operation itself.

use crate::guarded::{evidence_response, GuardedRequest};
use crate::message::{error_resp, ErrorCode, Request, Response};
use crate::policy::{global_view, PolicyView};
use crate::registry::WorkspaceView;
use crate::state::{
    is_policy_report, not_found_message, reports_config, resolved_workspace, workspaces_where,
    DaemonState,
};
use crate::text_list::opt_str;
use vstd::prelude::*;

verus! {

/// Connection identity available to guarded requests.
#[derive(Clone, Copy, Debug, Default)]
pub struct DispatchContext {
    peer_uid: Option<u32>,
}

impl DispatchContext {
    /// The user at the other end of the connection.
    pub closed spec fn uid(self) -> Option<u32> {
        self.peer_uid
    }

    /// The identity of a connection.
    pub fn new(peer_uid: Option<u32>) -> (r: Self)
        ensures
            r.uid() == peer_uid,
    {
        DispatchContext { peer_uid }
    }

    /// The user at the other end of the connection, where it is known.
    pub fn peer_uid(self) -> (r: Option<u32>)
        ensures
            r == self.uid(),
    {
        self.peer_uid
    }
}

/// Whether a request needs the storage to be up. Requests that only read or change what the
/// daemon keeps in memory and in its own files do not.
pub open spec fn needs_storage(req: Request) -> bool {
    match req {
        Request::Init { .. }
        | Request::Checkpoint { .. }
        | Request::Rollback { .. }
        | Request::RollbackPreview { .. }
        | Request::Delete { .. }
        | Request::Diff { .. }
        | Request::Cleanup { .. }
        | Request::Recover { .. } => true,
        _ => false,
    }
}

/// How far a request has come.
#[derive(Clone, Copy, Debug, PartialEq, Eq, Structural)]
pub enum Stage {
    /// Nothing was done yet.
    Start,
    /// The storage is up.
    StorageUp,
    /// The storage is up, and the workspace was looked up; it is or is not registered.
    LookedUp { registered: bool },
    /// The workspace was initialized.
    Initialized,
}

/// What to do next about a request.
#[derive(Clone, Copy, Debug, PartialEq, Eq, Structural)]
pub enum Action {
    /// Bring the storage up.
    BringUpStorage,
    /// Look the workspace up.
    LookUpWorkspace,
    /// Initialize the workspace.
    Initialize,
    /// Carry the operation out.
    Perform,
}

/// What to do next: storage first, if the request needs it; a checkpoint of a workspace that is
/// not registered initializes it; then the operation.
pub open spec fn next_action_for(req: Request, stage: Stage) -> Action {
    match stage {
        Stage::Start => if needs_storage(req) {
            Action::BringUpStorage
        } else {
            Action::Perform
        },
        Stage::StorageUp => if req is Checkpoint {
            Action::LookUpWorkspace
        } else {
            Action::Perform
        },
        Stage::LookedUp { registered } => if req is Checkpoint && !registered {
            Action::Initialize
        } else {
            Action::Perform
        },
        Stage::Initialized => Action::Perform,
    }
}

/// What to do next about a request.
pub fn next_action(req: &Request, stage: Stage) -> (r: Action)
    ensures
        r == next_action_for(*req, stage),
{
    match stage {
        Stage::Start => match req {
            Request::Init { .. }
            | Request::Checkpoint { .. }
            | Request::Rollback { .. }
            | Request::RollbackPreview { .. }
            | Request::Delete { .. }
            | Request::Diff { .. }
            | Request::Cleanup { .. }
            | Request::Recover { .. } => Action::BringUpStorage,
            _ => Action::Perform,
        },
        Stage::StorageUp => match req {
            Request::Checkpoint { .. } => Action::LookUpWorkspace,
            _ => Action::Perform,
        },
        Stage::LookedUp { registered } => match req {
            Request::Checkpoint { .. } => if registered {
                Action::Perform
            } else {
                Action::Initialize
            },
            _ => Action::Perform,
        },
        Stage::Initialized => Action::Perform,
    }
}

/// Whether the answer to an initialization on first use lets the checkpoint go ahead: it was
/// initialized, now or meanwhile.
pub open spec fn lets_pass(r: Response) -> bool {
    match r {
        Response::InitOk { .. } => true,
        Response::Error { code, .. } => code == ErrorCode::AlreadyInitialized,
        _ => false,
    }
}

/// Decides on the answer to an initialization on first use: go ahead, or pass the answer on.
pub fn after_auto_init(answer: Response) -> (r: Option<Response>)
    ensures
        r == if lets_pass(answer) {
            None
        } else {
            Some(answer)
        },
{
    match &answer {
        Response::InitOk { .. } => {
            return None;
        },
        Response::Error { code, .. } => {
            if *code == ErrorCode::AlreadyInitialized {
                return None;
            }
        },
        _ => {},
    }
    Some(answer)
}

/// Whether a request is answered from what the daemon keeps in memory alone.
pub open spec fn answered_from_memory(req: Request) -> bool {
    match req {
        Request::Config
        | Request::ConfigOverview
        | Request::GetWorkspacePolicy { .. }
        | Request::CheckpointEvidenceV2 { .. } => true,
        _ => false,
    }
}

impl DaemonState {
    /// Answers a request from what the daemon keeps in memory, if that is all it takes.
    /// `canonical` is where the request's workspace text leads as a path.
    pub fn answer_from_memory(
        &self,
        req: &Request,
        context: DispatchContext,
        canonical: Option<&str>,
    ) -> (r: Option<Response>)
        ensures
            r is Some <==> answered_from_memory(*req),
            match *req {
                Request::Config => r->0 matches Response::ConfigOk { config } && reports_config(
                    config,
                    self.config,
                ),
                Request::ConfigOverview => r->0 matches Response::ConfigOverviewOk {
                    config,
                    ws_total,
                    ws_with_override,
                } && reports_config(config, self.config) && ws_total == self.registry@.by_id.len()
                    && ws_with_override == workspaces_where(
                    self.registry@.by_id,
                    |w: WorkspaceView| w.policy != PolicyView::inherit(),
                ).len(),
                Request::GetWorkspacePolicy { workspace } => match resolved_workspace(
                    self.registry@,
                    workspace@,
                    opt_str(canonical),
                ) {
                    None => r->0.is_error(
                        ErrorCode::WorkspaceNotFound,
                        not_found_message(workspace@),
                    ),
                    Some(w) => is_policy_report(
                        r->0,
                        w.ws_id,
                        w.policy,
                        global_view(self.config),
                    ),
                },
                Request::CheckpointEvidenceV2 {
                    ws_id,
                    expected_generation,
                    checkpoint_id,
                    operation_digest,
                } => evidence_response(
                    self.registry@,
                    context.uid(),
                    GuardedRequest {
                        ws_id,
                        expected_generation,
                        checkpoint_id,
                        operation_digest,
                        message: None,
                        metadata: None,
                        pin: false,
                    },
                    r->0,
                ),
                _ => true,
            },
    {
        match req {
            Request::Config => Some(self.handle_config()),
            Request::ConfigOverview => Some(self.handle_config_overview()),
            Request::GetWorkspacePolicy { workspace } => Some(
                self.handle_get_workspace_policy(workspace.as_str(), canonical),
            ),
            Request::CheckpointEvidenceV2 {
                ws_id,
                expected_generation,
                checkpoint_id,
                operation_digest,
            } => {
                let query = GuardedRequest {
                    ws_id: ws_id.clone(),
                    expected_generation: *expected_generation,
                    checkpoint_id: checkpoint_id.clone(),
                    operation_digest: *operation_digest,
                    message: None,
                    metadata: None,
                    pin: false,
                };
                Some(self.checkpoint_evidence(context.peer_uid(), &query))
            },
            _ => None,
        }
    }
}

/// The answer to a request whose operation failed, with the reasons from the outermost in.
pub fn after_failure(reasons: &str) -> (r: Response)
    ensures
        r.is_error(ErrorCode::InternalError, reasons@),
{
    error_resp(ErrorCode::InternalError, reasons)
}

/// A request is carried out after at most three preparations, and the operation is always
/// reached, whatever the lookup shows.
pub proof fn lemma_every_request_is_performed(req: Request, registered: bool)
    ensures
        next_action_for(req, Stage::Initialized) == Action::Perform,
        next_action_for(req, Stage::LookedUp { registered }) == Action::Perform || next_action_for(
            req,
            Stage::LookedUp { registered },
        ) == Action::Initialize,
        next_action_for(req, Stage::StorageUp) == Action::Perform || next_action_for(
            req,
            Stage::StorageUp,
        ) == Action::LookUpWorkspace,
        next_action_for(req, Stage::Start) == Action::Perform || next_action_for(req, Stage::Start)
            == Action::BringUpStorage,
        !needs_storage(req) ==> next_action_for(req, Stage::Start) == Action::Perform,
{
}

} // verus!
