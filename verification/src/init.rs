//! Initialization of a workspace, as a sequence of pieces of work on the file system.
//!
//! A stage names the work that the initialization waits for. What the work showed is an event,
//! and the event takes the initialization to its next stage. Only the last event of a successful
//! initialization changes the daemon's state.

use crate::config::WsCkptError;
use crate::dispatch::after_failure;
use crate::ids::{
    lemma_until_is_prefix, stripped_path, until, workspace_id_fault, ws_id_base, ws_id_candidate,
};
use crate::index::{SnapshotIndex, StringSet};
use crate::lifecycle::{
    after_bucket_probe, after_check, after_early_look, after_mount_check, after_resolution,
    after_tool_check, begin_init, choose_ws_id, first_free, has_snapshots, index_or_new,
    index_to_start, initial_index, inside_message, is_init_ok, mounted_message, opt_index,
    recover_index, recovered_index, registered_view, resolution_refusal, restored_index, target_id,
    verdict, CheckedMove, EarlyLook, EarlyMove, Found, Resolution, Verdict,
};
use crate::message::{ErrorCode, Response};
use crate::paths::{is_step_name, joined_path, lemma_joined_lies_in, lies_in};
use crate::policy::LoadPolicyOutcome;
use crate::state::DaemonState;
use crate::text::trimmed;
use crate::text_list::opt_text;
use vstd::prelude::*;

verus! {

/// The work that an initialization waits for.
pub enum InitStage {
    /// See whether the path itself is a symbolic link.
    LookAtPath { path: String },
    /// Remove the link, which leads nowhere.
    RemoveLink { path: String },
    /// Resolve the path.
    ResolvePath { path: String },
    /// See what is at the resolved path.
    InspectPath { path: String },
    /// See whether a subvolume that is not registered has a place for snapshots.
    ProbeBucket { path: String, ws_id: String },
    /// See whether the path is a mount point.
    CheckMount { path: String },
    /// See whether processes have their working directory in the path.
    CheckOccupants { path: String },
    /// Look for the tool that copies the contents.
    FindTool { path: String },
    /// List the names in use in the storage.
    ListNames { path: String },
    /// Create the subvolume, and move the contents there.
    CreateStorage { path: String, ws_id: String },
    /// Look for snapshots of the workspace on disk.
    FindSnapshots { path: String, ws_id: String },
    /// Save the index of the new workspace.
    SaveIndex { path: String, ws_id: String, index: SnapshotIndex },
    /// Load the index file of a workspace that is adopted.
    LoadIndex { path: String, ws_id: String },
    /// Look for snapshots that the index file of an adopted workspace does not have.
    RecoverSnapshots { path: String, ws_id: String, index: SnapshotIndex },
    /// Save the index of an adopted workspace. Whether that works does not matter.
    SaveRecovered { path: String, ws_id: String, index: SnapshotIndex },
    /// Load the policy file of the workspace.
    LoadPolicy { path: String, ws_id: String, index: SnapshotIndex },
    /// Nothing: the initialization is over.
    Done(Response),
}

/// What the work of a stage showed.
#[allow(inconsistent_fields)]
pub enum InitEvent {
    Looked(EarlyLook),
    LinkRemoved,
    Resolved(Resolution),
    /// What is found, and where the path leads as a symbolic link, if it is one.
    Inspected { found: Found, link: Option<String> },
    BucketProbed { exists: bool },
    MountChecked { mounted: bool },
    /// The refusal because of the processes that were found, if there is to be one.
    OccupantsChecked { refusal: Option<Response> },
    ToolChecked { found: bool },
    NamesListed(StringSet),
    StorageCreated,
    /// The snapshots on disk, unless they could not be read.
    SnapshotsFound(Option<SnapshotIndex>),
    IndexSaved,
    /// The index file, unless it could not be read.
    IndexLoaded(Option<SnapshotIndex>),
    PolicyLoaded(Result<LoadPolicyOutcome, WsCkptError>),
    /// The work failed, for these reasons.
    Failed(String),
}

/// Whether an event is what the work of a stage can show.
pub open spec fn answers(stage: InitStage, event: InitEvent) -> bool {
    match (stage, event) {
        (InitStage::LookAtPath { .. }, InitEvent::Looked(_)) => true,
        (InitStage::RemoveLink { .. }, InitEvent::LinkRemoved) => true,
        (InitStage::ResolvePath { .. }, InitEvent::Resolved(_)) => true,
        (InitStage::InspectPath { .. }, InitEvent::Inspected { .. }) => true,
        (InitStage::ProbeBucket { .. }, InitEvent::BucketProbed { .. }) => true,
        (InitStage::CheckMount { .. }, InitEvent::MountChecked { .. }) => true,
        (InitStage::CheckMount { .. }, InitEvent::Failed(_)) => true,
        (InitStage::CheckOccupants { .. }, InitEvent::OccupantsChecked { .. }) => true,
        (InitStage::FindTool { .. }, InitEvent::ToolChecked { .. }) => true,
        (InitStage::FindTool { .. }, InitEvent::Failed(_)) => true,
        (InitStage::ListNames { .. }, InitEvent::NamesListed(_)) => true,
        (InitStage::CreateStorage { .. }, InitEvent::StorageCreated) => true,
        (InitStage::CreateStorage { .. }, InitEvent::Failed(_)) => true,
        (InitStage::FindSnapshots { .. }, InitEvent::SnapshotsFound(_)) => true,
        (InitStage::SaveIndex { .. }, InitEvent::IndexSaved) => true,
        (InitStage::SaveIndex { .. }, InitEvent::Failed(_)) => true,
        (InitStage::LoadIndex { .. }, InitEvent::IndexLoaded(_)) => true,
        (InitStage::RecoverSnapshots { .. }, InitEvent::SnapshotsFound(_)) => true,
        (InitStage::SaveRecovered { .. }, InitEvent::IndexSaved) => true,
        (InitStage::SaveRecovered { .. }, InitEvent::Failed(_)) => true,
        (InitStage::LoadPolicy { .. }, InitEvent::PolicyLoaded(_)) => true,
        _ => false,
    }
}

/// Whether a stage ends the initialization with an error.
pub open spec fn fails_with(stage: InitStage, code: ErrorCode, message: Seq<char>) -> bool {
    stage matches InitStage::Done(r) && r.is_error(code, message)
}

/// Whether a stage ends the initialization successfully.
pub open spec fn succeeds_with(stage: InitStage, id: Seq<char>) -> bool {
    stage matches InitStage::Done(r) && is_init_ok(r, id)
}

/// Whether a stage is about to resolve a path.
pub open spec fn resolves(stage: InitStage, path: Seq<char>) -> bool {
    stage matches InitStage::ResolvePath { path: p } && p@ == path
}

/// Whether a stage is about to adopt a subvolume.
pub open spec fn adopts(stage: InitStage, path: Seq<char>, id: Seq<char>) -> bool {
    stage matches InitStage::LoadIndex { path: p, ws_id } && p@ == path && ws_id@ == id
}

/// Whether a stage is about to load the policy of a workspace.
pub open spec fn loads_policy(
    stage: InitStage,
    path: Seq<char>,
    id: Seq<char>,
    index: crate::index::IndexView,
) -> bool {
    stage matches InitStage::LoadPolicy { path: p, ws_id, index: i } && p@ == path && ws_id@ == id
        && i@ == index
}

/// Whether an event takes an initialization from a stage to the next one.
pub open spec fn init_moves(
    state: DaemonState,
    stage: InitStage,
    event: InitEvent,
    next: InitStage,
) -> bool {
    match (stage, event) {
        (InitStage::LookAtPath { path }, InitEvent::Looked(look)) => match look {
            EarlyLook::NoLink => resolves(next, path@),
            EarlyLook::Link { target, target_exists } => if !lies_in(target@, state.data_root@) {
                resolves(next, path@)
            } else if !target_exists {
                next matches InitStage::RemoveLink { path: p } && p@ == path@
            } else if state.registry@.by_id.contains_key(target_id(target@)) {
                succeeds_with(next, target_id(target@))
            } else {
                adopts(next, path@, target_id(target@))
            },
        },
        (InitStage::RemoveLink { path }, InitEvent::LinkRemoved) => resolves(next, path@),
        (InitStage::ResolvePath { path }, InitEvent::Resolved(resolution)) => {
            match resolution_refusal(path@, resolution) {
                Some(m) => fails_with(next, ErrorCode::InvalidPath, m),
                None => next matches InitStage::InspectPath { path: p } && (resolution
                    matches Resolution::Resolved(q) && p@ == q@),
            }
        },
        (InitStage::InspectPath { path }, InitEvent::Inspected { found, link }) => {
            match verdict(state, path@, found, opt_text(link)) {
                Verdict::Initialized(id) => succeeds_with(next, id),
                Verdict::Refused(code, m) => fails_with(next, code, m),
                Verdict::Unregistered(id) => next matches InitStage::ProbeBucket { path: p, ws_id }
                    && p@ == path@ && ws_id@ == id,
                Verdict::Free => next matches InitStage::CheckMount { path: p } && p@ == path@,
            }
        },
        (InitStage::ProbeBucket { path, ws_id }, InitEvent::BucketProbed { exists }) => if exists {
            adopts(next, path@, ws_id@)
        } else {
            fails_with(
                next,
                ErrorCode::InvalidPath,
                inside_message(state.config.mount_path@, path@),
            )
        },
        (InitStage::CheckMount { path }, InitEvent::MountChecked { mounted }) => if mounted {
            fails_with(next, ErrorCode::InvalidPath, mounted_message(path@))
        } else {
            next matches InitStage::CheckOccupants { path: p } && p@ == path@
        },
        (InitStage::CheckMount { .. }, InitEvent::Failed(e)) => fails_with(
            next,
            ErrorCode::InternalError,
            e@,
        ),
        (InitStage::CheckOccupants { path }, InitEvent::OccupantsChecked { refusal }) => {
            match refusal {
                Some(r) => next == InitStage::Done(r),
                None => next matches InitStage::FindTool { path: p } && p@ == path@,
            }
        },
        (InitStage::FindTool { path }, InitEvent::ToolChecked { found }) => if found {
            next matches InitStage::ListNames { path: p } && p@ == path@
        } else {
            fails_with(next, ErrorCode::InternalError, "rsync is not installed or not in PATH"@)
        },
        (InitStage::FindTool { .. }, InitEvent::Failed(e)) => fails_with(
            next,
            ErrorCode::InternalError,
            e@,
        ),
        (InitStage::ListNames { path }, InitEvent::NamesListed(names)) => {
            &&& next matches InitStage::CreateStorage { path: p, ws_id }
            &&& p@ == path@
            &&& workspace_id_fault(ws_id@) is None
            &&& !names@.contains_key(ws_id@)
            &&& exists|n: nat| #[trigger]
                first_free(ws_id_base(path@), names@.dom(), n) && ws_id@ == ws_id_candidate(
                    ws_id_base(path@),
                    n,
                )
        },
        (InitStage::CreateStorage { path, ws_id }, InitEvent::StorageCreated) => next
            matches InitStage::FindSnapshots { path: p, ws_id: i } && p@ == path@ && i@ == ws_id@,
        (InitStage::CreateStorage { .. }, InitEvent::Failed(e)) => fails_with(
            next,
            ErrorCode::InternalError,
            e@,
        ),
        (InitStage::FindSnapshots { path, ws_id }, InitEvent::SnapshotsFound(found)) => next
            matches InitStage::SaveIndex { path: p, ws_id: i, index } && p@ == path@ && i@ == ws_id@
            && index@ == index_to_start(opt_index(found), path@),
        (InitStage::SaveIndex { path, ws_id, index }, InitEvent::IndexSaved) => loads_policy(
            next,
            path@,
            ws_id@,
            index@,
        ),
        (InitStage::SaveIndex { .. }, InitEvent::Failed(e)) => fails_with(
            next,
            ErrorCode::InternalError,
            e@,
        ),
        (InitStage::LoadIndex { path, ws_id }, InitEvent::IndexLoaded(loaded)) => {
            let index = index_or_new(opt_index(loaded), path@);
            if has_snapshots(index) {
                loads_policy(next, path@, ws_id@, index)
            } else {
                next matches InitStage::RecoverSnapshots { path: p, ws_id: i, index: x } && p@
                    == path@ && i@ == ws_id@ && x@ == index
            }
        },
        (InitStage::RecoverSnapshots { path, ws_id, index }, InitEvent::SnapshotsFound(found)) => {
            let recovered = recovered_index(index@, opt_index(found));
            if !has_snapshots(index@) && (found matches Some(f) && has_snapshots(f@)) {
                next matches InitStage::SaveRecovered { path: p, ws_id: i, index: x } && p@ == path@
                    && i@ == ws_id@ && x@ == recovered
            } else {
                loads_policy(next, path@, ws_id@, recovered)
            }
        },
        (InitStage::SaveRecovered { path, ws_id, index }, InitEvent::IndexSaved) => loads_policy(
            next,
            path@,
            ws_id@,
            index@,
        ),
        (InitStage::SaveRecovered { path, ws_id, index }, InitEvent::Failed(_)) => loads_policy(
            next,
            path@,
            ws_id@,
            index@,
        ),
        (InitStage::LoadPolicy { ws_id, .. }, InitEvent::PolicyLoaded(_)) => succeeds_with(
            next,
            ws_id@,
        ),
        _ => next == stage,
    }
}

impl InitStage {
    /// The first stage of an initialization.
    pub fn begin(workspace: &str) -> (r: InitStage)
        ensures
            if trimmed(workspace@).len() == 0 {
                fails_with(r, ErrorCode::InvalidPath, "workspace path is empty"@)
            } else {
                r matches InitStage::LookAtPath { path } && path@ == stripped_path(workspace@)
            },
    {
        match begin_init(workspace) {
            Ok(path) => InitStage::LookAtPath { path },
            Err(e) => InitStage::Done(e),
        }
    }

    /// The stage that an event leads to. An event that the work of this stage cannot show
    /// changes nothing. The workspace is registered when its policy file was loaded.
    pub fn advance(self, state: &mut DaemonState, event: InitEvent) -> (next: InitStage)
        requires
            event matches InitEvent::NamesListed(names) ==> names@.len() < u32::MAX,
        ensures
            init_moves(*old(state), self, event, next),
            match (self, event) {
                (
                    InitStage::LoadPolicy { path, ws_id, index },
                    InitEvent::PolicyLoaded(loaded),
                ) => {
                    &&& final(state).same_but_registry(*old(state))
                    &&& exists|number: usize|
                        final(state).registry@ == #[trigger] old(state).registry@.registered(
                            registered_view(ws_id@, path@, index@, loaded),
                            number,
                        )
                },
                _ => *final(state) == *old(state),
            },
    {
        match (self, event) {
            (InitStage::LookAtPath { path }, InitEvent::Looked(look)) => {
                match after_early_look(state, look) {
                    EarlyMove::Reply(r) => InitStage::Done(r),
                    EarlyMove::Adopt { ws_id } => InitStage::LoadIndex { path, ws_id },
                    EarlyMove::RemoveLink => InitStage::RemoveLink { path },
                    EarlyMove::Continue => InitStage::ResolvePath { path },
                }
            },
            (InitStage::RemoveLink { path }, InitEvent::LinkRemoved) => {
                InitStage::ResolvePath { path }
            },
            (InitStage::ResolvePath { path }, InitEvent::Resolved(resolution)) => {
                match after_resolution(path.as_str(), resolution) {
                    Ok(path) => InitStage::InspectPath { path },
                    Err(e) => InitStage::Done(e),
                }
            },
            (InitStage::InspectPath { path }, InitEvent::Inspected { found, link }) => {
                let link_text = match &link {
                    Some(t) => Some(t.as_str()),
                    None => None,
                };
                match after_check(state, path.as_str(), found, link_text) {
                    CheckedMove::Reply(r) => InitStage::Done(r),
                    CheckedMove::ProbeBucket { ws_id } => InitStage::ProbeBucket { path, ws_id },
                    CheckedMove::Proceed => InitStage::CheckMount { path },
                }
            },
            (InitStage::ProbeBucket { path, ws_id }, InitEvent::BucketProbed { exists }) => {
                match after_bucket_probe(state, path.as_str(), exists) {
                    Some(e) => InitStage::Done(e),
                    None => InitStage::LoadIndex { path, ws_id },
                }
            },
            (InitStage::CheckMount { path }, InitEvent::MountChecked { mounted }) => {
                match after_mount_check(path.as_str(), mounted) {
                    Some(e) => InitStage::Done(e),
                    None => InitStage::CheckOccupants { path },
                }
            },
            (InitStage::CheckMount { .. }, InitEvent::Failed(e)) => InitStage::Done(
                after_failure(e.as_str()),
            ),
            (InitStage::CheckOccupants { path }, InitEvent::OccupantsChecked { refusal }) => {
                match refusal {
                    Some(r) => InitStage::Done(r),
                    None => InitStage::FindTool { path },
                }
            },
            (InitStage::FindTool { path }, InitEvent::ToolChecked { found }) => {
                match after_tool_check(found) {
                    Some(e) => InitStage::Done(e),
                    None => InitStage::ListNames { path },
                }
            },
            (InitStage::FindTool { .. }, InitEvent::Failed(e)) => InitStage::Done(
                after_failure(e.as_str()),
            ),
            (InitStage::ListNames { path }, InitEvent::NamesListed(names)) => {
                let ws_id = choose_ws_id(path.as_str(), &names);
                InitStage::CreateStorage { path, ws_id }
            },
            (InitStage::CreateStorage { path, ws_id }, InitEvent::StorageCreated) => {
                InitStage::FindSnapshots { path, ws_id }
            },
            (InitStage::CreateStorage { .. }, InitEvent::Failed(e)) => InitStage::Done(
                after_failure(e.as_str()),
            ),
            (InitStage::FindSnapshots { path, ws_id }, InitEvent::SnapshotsFound(found)) => {
                let index = initial_index(found, path.as_str());
                InitStage::SaveIndex { path, ws_id, index }
            },
            (InitStage::SaveIndex { path, ws_id, index }, InitEvent::IndexSaved) => {
                InitStage::LoadPolicy { path, ws_id, index }
            },
            (InitStage::SaveIndex { .. }, InitEvent::Failed(e)) => InitStage::Done(
                after_failure(e.as_str()),
            ),
            (InitStage::LoadIndex { path, ws_id }, InitEvent::IndexLoaded(loaded)) => {
                let index = restored_index(loaded, path.as_str());
                if index.snapshots.is_empty() {
                    InitStage::RecoverSnapshots { path, ws_id, index }
                } else {
                    InitStage::LoadPolicy { path, ws_id, index }
                }
            },
            (InitStage::RecoverSnapshots { path, ws_id, index }, InitEvent::SnapshotsFound(found)) => {
                let (index, save) = recover_index(index, found);
                if save {
                    InitStage::SaveRecovered { path, ws_id, index }
                } else {
                    InitStage::LoadPolicy { path, ws_id, index }
                }
            },
            (InitStage::SaveRecovered { path, ws_id, index }, InitEvent::IndexSaved) => {
                InitStage::LoadPolicy { path, ws_id, index }
            },
            (InitStage::SaveRecovered { path, ws_id, index }, InitEvent::Failed(_)) => {
                InitStage::LoadPolicy { path, ws_id, index }
            },
            (InitStage::LoadPolicy { path, ws_id, index }, InitEvent::PolicyLoaded(loaded)) => {
                InitStage::Done(state.finish_init(ws_id, path, index, loaded))
            },
            (stage, _) => stage,
        }
    }
}

/// How many answers an initialization is away from its end, at most.
pub open spec fn answers_left(stage: InitStage) -> nat {
    match stage {
        InitStage::LookAtPath { .. } => 13,
        InitStage::RemoveLink { .. } => 12,
        InitStage::ResolvePath { .. } => 11,
        InitStage::InspectPath { .. } => 10,
        InitStage::ProbeBucket { .. } => 5,
        InitStage::CheckMount { .. } => 9,
        InitStage::CheckOccupants { .. } => 8,
        InitStage::FindTool { .. } => 7,
        InitStage::ListNames { .. } => 6,
        InitStage::CreateStorage { .. } => 5,
        InitStage::FindSnapshots { .. } => 4,
        InitStage::SaveIndex { .. } => 3,
        InitStage::LoadIndex { .. } => 4,
        InitStage::RecoverSnapshots { .. } => 3,
        InitStage::SaveRecovered { .. } => 2,
        InitStage::LoadPolicy { .. } => 1,
        InitStage::Done(_) => 0,
    }
}

/// Every answer brings an initialization nearer to its end, so it ends after at most thirteen;
/// what is no answer leaves it where it is.
pub proof fn lemma_every_answer_advances(
    state: DaemonState,
    stage: InitStage,
    event: InitEvent,
    next: InitStage,
)
    requires
        init_moves(state, stage, event, next),
    ensures
        answers(stage, event) ==> answers_left(next) < answers_left(stage),
        !answers(stage, event) ==> next == stage,
        answers_left(stage) <= 13,
{
}

/// Storage is created only for a path that is free, is no mount point, has no occupants, and for
/// which the tool was found, under a valid name that is not in use: the stages before it are
/// passed in this order, and no other stage leads there.
pub proof fn lemma_storage_is_created_last(
    state: DaemonState,
    stage: InitStage,
    event: InitEvent,
    next: InitStage,
)
    requires
        init_moves(state, stage, event, next),
        next != stage,
    ensures
        next matches InitStage::CreateStorage { ws_id, .. } ==> stage is ListNames
            && workspace_id_fault(ws_id@) is None && (event matches InitEvent::NamesListed(names)
            && !names@.contains_key(ws_id@)),
        next is ListNames ==> stage is FindTool && (event matches InitEvent::ToolChecked { found }
            && found),
        next is FindTool ==> stage is CheckOccupants && (event
            matches InitEvent::OccupantsChecked { refusal } && refusal is None),
        next is CheckOccupants ==> stage is CheckMount && (event
            matches InitEvent::MountChecked { mounted } && !mounted),
        next is CheckMount ==> (stage matches InitStage::InspectPath { path } && (event
            matches InitEvent::Inspected { found, link } && verdict(
            state,
            path@,
            found,
            opt_text(link),
        ) is Free)),
{
}

/// A new workspace is registered only once its storage was created and its index saved, and an
/// adopted one only once its index file was looked for.
pub proof fn lemma_registration_comes_last(
    state: DaemonState,
    stage: InitStage,
    event: InitEvent,
    next: InitStage,
)
    requires
        init_moves(state, stage, event, next),
        next != stage,
    ensures
        next is LoadPolicy ==> stage is SaveRecovered || stage is RecoverSnapshots
            || stage is LoadIndex || (stage is SaveIndex && event is IndexSaved),
        next is SaveIndex ==> stage is FindSnapshots,
        next is FindSnapshots ==> stage is CreateStorage && event is StorageCreated,
        next is SaveRecovered ==> stage is RecoverSnapshots,
        next is RecoverSnapshots ==> stage is LoadIndex && event is IndexLoaded,
{
}

/// A workspace that is initialized is recognised: by the link that leads to its subvolume, and by
/// its subvolume, where that is reached under its own path. Initializing it again gives its
/// identifier, and does no work.
pub proof fn lemma_initialized_is_recognised(
    state: DaemonState,
    id: Seq<char>,
    stage: InitStage,
    event: InitEvent,
    next: InitStage,
)
    requires
        workspace_id_fault(id) is None,
        state.registry@.get(id) is Some,
        state.data_root@.len() > 0,
        state.config.mount_path@.len() > 0,
        init_moves(state, stage, event, next),
        ({
            let subvolume = joined_path(state.config.mount_path@, id);
            ||| stage is LookAtPath && (event matches InitEvent::Looked(look) && (look
                matches EarlyLook::Link { target, target_exists } && target_exists && target@
                == joined_path(state.data_root@, id)))
            ||| (stage matches InitStage::InspectPath { path } && path@ == subvolume) && (event
                matches InitEvent::Inspected { found, .. } && found == Found::Directory)
                && state.registry@.at(subvolume) is None
        }),
    ensures
        succeeds_with(next, id),
{
    reveal_strlit("ws-");
    reveal_strlit(".");
    reveal_strlit("..");
    lemma_workspace_id_is_a_name(id);
    lemma_joined_lies_in(state.data_root@, id);
    lemma_joined_lies_in(state.config.mount_path@, id);
}

proof fn lemma_workspace_id_is_a_name(id: Seq<char>)
    requires
        workspace_id_fault(id) is None,
    ensures
        is_step_name(id),
        id != ".."@,
{
    reveal_strlit("ws-");
    reveal_strlit(".");
    reveal_strlit("..");
    let rest = id.skip(3);
    let base = until(rest, '-');
    lemma_until_is_prefix(rest, '-');
    assert(id.len() > 3);
    assert forall|i: int| 0 <= i < id.len() implies #[trigger] id[i] != '/' by {
        if i < 3 {
            assert(id[i] == "ws-"@[i]);
        } else if i < 3 + base.len() {
            assert(id[i] == base[i - 3]);
        } else if i > 3 + base.len() {
            assert(id[i] == rest.skip(base.len() as int + 1)[i - 4 - base.len()]);
        } else {
            assert(rest[base.len() as int] == '-');
        }
    }
}

} // verus!
