//! Promises about initializing workspaces and restoring them at a restart.

use crate::config::{DaemonConfig, WsCkptError};
use crate::ids::{generate_ws_id_base, strip_trailing_slashes, validate_workspace_id_v2};
use crate::index::{IndexView, SnapshotIndex, StringSet};
use crate::init::{InitEvent, InitStage};
use crate::laws::display::holds;
use crate::laws::workspaces::{found_at, is_error_of, rest_stays};
use crate::lifecycle::{
    after_bucket_probe, after_check, after_early_look, after_mount_check, after_resolution,
    after_tool_check, begin_init, choose_ws_id, is_quiescent, CheckedMove, EarlyLook, EarlyMove,
    Found, Resolution,
};
use crate::message::{ErrorCode, Response};
use crate::paths::{
    file_name, join_path, normal_path, path_starts_with, same_path, single_component_below,
};
use crate::policy::LoadPolicyOutcome;
use crate::registry::{RegistryView, WorkspaceState, WorkspaceView};
use crate::restore::{PersistedWorkspace, SnapshotBucket};
use crate::state::DaemonState;
use crate::string_map::StringMap;
use crate::text::{decimal, trimmed};
use crate::text_list::texts;
use vstd::prelude::*;

verus! {

/// Whether a response says that a workspace is initialized under an identifier.
pub open spec fn initialized_as(r: Response, id: Seq<char>) -> bool {
    r matches Response::InitOk { ws_id } && ws_id@ == id
}

/// A blank path is refused; any other is worked on without its trailing slashes.
pub proof fn lemma_blank_paths_are_refused(
    workspace: &str,
    stripped: String,
    first: Result<String, Response>,
    stage: InitStage,
)
    requires
        call_ensures(strip_trailing_slashes, (workspace,), stripped),
        call_ensures(begin_init, (workspace,), first),
        call_ensures(InitStage::begin, (workspace,), stage),
    ensures
        first is Err <==> trimmed(workspace@).len() == 0,
        first matches Err(e) ==> is_error_of(e, ErrorCode::InvalidPath),
        first matches Ok(p) ==> p@ == stripped@,
        trimmed(workspace@).len() == 0 ==> (stage matches InitStage::Done(e) && is_error_of(
            e,
            ErrorCode::InvalidPath,
        )),
        trimmed(workspace@).len() > 0 ==> (stage matches InitStage::LookAtPath { path } && path@
            == stripped@),
{
}

/// A link into the daemon's storage is taken for a workspace that is registered only where it is,
/// is adopted only where it is not, and is removed only where it leads nowhere. Any other path is
/// left to the steps that follow.
pub proof fn lemma_links_into_the_storage(
    state: DaemonState,
    look: EarlyLook,
    target: &str,
    root: &str,
    inside: bool,
    r: EarlyMove,
)
    requires
        call_ensures(after_early_look, (&state, look), r),
        look matches EarlyLook::Link { target: t, .. } ==> t@ == target@,
        root@ == state.data_root@,
        call_ensures(path_starts_with, (target, root), inside),
    ensures
        look is NoLink ==> r is Continue,
        look matches EarlyLook::Link { target_exists, .. } ==> {
            &&& r is Continue <==> !inside
            &&& r is RemoveLink <==> inside && !target_exists
            &&& r matches EarlyMove::Reply(a) ==> exists|id: Seq<char>| #[trigger]
                state.registry@.by_id.contains_key(id) && initialized_as(a, id)
            &&& r matches EarlyMove::Adopt { ws_id } ==> !state.registry@.by_id.contains_key(ws_id@)
        },
{
    if let EarlyLook::Link { target: t, target_exists } = look {
        if let EarlyMove::Reply(a) = r {
            assert(state.registry@.by_id.contains_key(crate::lifecycle::target_id(t@)));
        }
    }
}

/// A path goes on as it was resolved, and only where it could be, as a text other than the root.
pub proof fn lemma_resolved_paths_go_on(
    workspace: &str,
    resolution: Resolution,
    r: Result<String, Response>,
)
    requires
        call_ensures(after_resolution, (workspace, resolution), r),
    ensures
        r matches Ok(p) ==> (resolution matches Resolution::Resolved(q) && q@ == p@),
        r matches Err(e) ==> is_error_of(e, ErrorCode::InvalidPath),
        !(resolution is Resolved) ==> r is Err,
        resolution matches Resolution::Resolved(q) ==> (crate::paths::components(q@)
            == crate::paths::components("/"@) <==> r is Err),
{
}

/// A path becomes a new workspace only where it is a directory outside the storage at which none is
/// registered. It is answered as initialized only under an identifier that is registered, and a
/// registered path whose link is gone is refused.
pub proof fn lemma_only_free_directories_become_workspaces(
    state: DaemonState,
    path: &str,
    found: Found,
    link: Option<&str>,
    mount: &str,
    inside: bool,
    r: CheckedMove,
)
    requires
        call_ensures(after_check, (&state, path, found, link), r),
        mount@ == state.config.mount_path@,
        call_ensures(path_starts_with, (path, mount), inside),
    ensures
        r is Proceed <==> found == Found::Directory && !found_at(state.registry@, path@) && !inside,
        r matches CheckedMove::ProbeBucket { ws_id } ==> inside && found == Found::Directory
            && !state.registry@.by_id.contains_key(ws_id@) && !found_at(state.registry@, path@),
        r matches CheckedMove::Reply(a) ==> a is InitOk || a is Error,
        found != Found::Directory ==> (r matches CheckedMove::Reply(a) && is_error_of(
            a,
            ErrorCode::InvalidPath,
        )),
        found == Found::Directory && found_at(state.registry@, path@) && link is None ==> (r
            matches CheckedMove::Reply(a) && is_error_of(a, ErrorCode::InternalError)),
        state.registry@.keyed() ==> (r matches CheckedMove::Reply(a) ==> (a
            matches Response::InitOk { ws_id } ==> state.registry@.by_id.contains_key(ws_id@))),
{
    let v = state.registry@;
    if found == Found::Directory && found_at(v, path@) {
        let id = v.paths[normal_path(path@)];
        assert(v.at(path@) == Some(v.by_id[id]));
        if v.keyed() {
            assert(v.by_id.contains_key(id) ==> v.by_id[id].ws_id == id);
        }
    }
}

/// A subvolume without a place for snapshots is refused, and so are a mount point and a missing
/// tool; nothing else is at these steps.
pub proof fn lemma_checks_refuse_for_cause(
    state: DaemonState,
    path: &str,
    bucket: bool,
    mounted: bool,
    tool: bool,
    a: Option<Response>,
    b: Option<Response>,
    c: Option<Response>,
)
    requires
        call_ensures(after_bucket_probe, (&state, path, bucket), a),
        call_ensures(after_mount_check, (path, mounted), b),
        call_ensures(after_tool_check, (tool,), c),
    ensures
        a is Some <==> !bucket,
        a matches Some(e) ==> is_error_of(e, ErrorCode::InvalidPath),
        b is Some <==> mounted,
        b matches Some(e) ==> is_error_of(e, ErrorCode::InvalidPath),
        c is Some <==> !tool,
        c matches Some(e) ==> is_error_of(e, ErrorCode::InternalError),
{
}

/// The identifier of a new workspace is valid and not in use. It is that of the path where that is
/// free, and otherwise that with the first number from two that is.
pub proof fn lemma_new_identifiers_are_free(
    path: &str,
    occupied: StringSet,
    base: String,
    r: String,
    id: &str,
    valid: Result<(), String>,
)
    requires
        call_ensures(generate_ws_id_base, (path,), base),
        call_ensures(choose_ws_id, (path, &occupied), r),
        id@ == r@,
        call_ensures(validate_workspace_id_v2, (id,), valid),
    ensures
        !occupied@.contains_key(r@),
        valid is Ok,
        !occupied@.contains_key(base@) ==> r@ == base@,
        occupied@.contains_key(base@) ==> exists|n: nat|
            n >= 2 && r@ == base@ + seq!['-'] + #[trigger] decimal(n) && (forall|m: nat|
                2 <= m < n ==> occupied@.contains_key(base@ + seq!['-'] + #[trigger] decimal(m))),
{
    reveal_strlit("-");
    assert("-"@ =~= seq!['-']);
    let b = base@;
    let d = occupied@.dom();
    let n = choose|n: nat| #[trigger]
        crate::lifecycle::first_free(b, d, n) && r@ == crate::ids::ws_id_candidate(b, n);
    assert(crate::lifecycle::first_free(b, d, n));
    if !occupied@.contains_key(b) {
        if n >= 2 {
            assert(d.contains(crate::ids::ws_id_candidate(b, 1)));
        }
    } else {
        assert(n >= 2);
        assert(r@ == b + seq!['-'] + decimal(n));
        assert forall|m: nat| 2 <= m < n implies occupied@.contains_key(
            b + seq!['-'] + #[trigger] decimal(m),
        ) by {
            assert(d.contains(crate::ids::ws_id_candidate(b, m)));
        }
    }
}

/// Whether a workspace was registered with what was found of it: its identifier, its path, its
/// index, and the policy that was read, where cleanup is off and the policy a stand-in exactly if it
/// could not be read. No other workspace changed, and the path leads to it.
pub open spec fn registered_with(
    a: RegistryView,
    b: RegistryView,
    ws_id: Seq<char>,
    path: Seq<char>,
    index: IndexView,
    loaded: Result<LoadPolicyOutcome, WsCkptError>,
) -> bool {
    &&& b.by_id.remove(ws_id) == a.by_id.remove(ws_id)
    &&& b.paths == a.paths.insert(normal_path(path), ws_id)
    &&& b.by_id.contains_key(ws_id)
    &&& is_registered_as(b.by_id[ws_id], ws_id, path, index, loaded)
}

/// Whether a workspace is what it was registered as.
pub open spec fn is_registered_as(
    w: WorkspaceView,
    ws_id: Seq<char>,
    path: Seq<char>,
    index: IndexView,
    loaded: Result<LoadPolicyOutcome, WsCkptError>,
) -> bool {
    &&& w.ws_id == ws_id
    &&& w.path == path
    &&& w.index == index
    &&& has_policy(w, loaded)
}

/// Whether a workspace has the policy that was read.
pub open spec fn has_policy(
    w: WorkspaceView,
    loaded: Result<LoadPolicyOutcome, WsCkptError>,
) -> bool {
    &&& w.policy_failsafe <==> loaded is Err
    &&& loaded is Err ==> w.policy.auto_cleanup == Some(false)
    &&& loaded matches Ok(LoadPolicyOutcome::Missing) ==> w.policy.auto_cleanup is None
        && w.policy.auto_cleanup_keep is None
    &&& loaded matches Ok(LoadPolicyOutcome::Loaded(p)) ==> w.policy == p@
}

/// A finished initialization registers the workspace as it was made, and answers its identifier.
pub proof fn lemma_initialized_workspaces_are_registered(
    state: &mut DaemonState,
    ws_id: String,
    path: String,
    index: SnapshotIndex,
    loaded: Result<LoadPolicyOutcome, WsCkptError>,
    r: Response,
)
    requires
        call_ensures(DaemonState::finish_init, (state, ws_id, path, index, loaded), r),
    ensures
        rest_stays(*final(state), *old(state)),
        initialized_as(r, ws_id@),
        registered_with(
            old(state).registry@,
            final(state).registry@,
            ws_id@,
            path@,
            index@,
            loaded,
        ),
{
    let a = old(state).registry@;
    let b = final(state).registry@;
    assert(b.by_id.remove(ws_id@) =~= a.by_id.remove(ws_id@));
}

/// The path that the work of a stage is about, where there is work.
pub open spec fn path_of(stage: InitStage) -> Option<Seq<char>> {
    match stage {
        InitStage::LookAtPath { path } => Some(path@),
        InitStage::RemoveLink { path } => Some(path@),
        InitStage::ResolvePath { path } => Some(path@),
        InitStage::InspectPath { path } => Some(path@),
        InitStage::ProbeBucket { path, .. } => Some(path@),
        InitStage::CheckMount { path } => Some(path@),
        InitStage::CheckOccupants { path } => Some(path@),
        InitStage::FindTool { path } => Some(path@),
        InitStage::ListNames { path } => Some(path@),
        InitStage::CreateStorage { path, .. } => Some(path@),
        InitStage::FindSnapshots { path, .. } => Some(path@),
        InitStage::SaveIndex { path, .. } => Some(path@),
        InitStage::LoadIndex { path, .. } => Some(path@),
        InitStage::RecoverSnapshots { path, .. } => Some(path@),
        InitStage::SaveRecovered { path, .. } => Some(path@),
        InitStage::LoadPolicy { path, .. } => Some(path@),
        InitStage::Done(_) => None,
    }
}

/// The identifier that the work of a stage is about, once there is one.
pub open spec fn id_of(stage: InitStage) -> Option<Seq<char>> {
    match stage {
        InitStage::ProbeBucket { ws_id, .. } => Some(ws_id@),
        InitStage::CreateStorage { ws_id, .. } => Some(ws_id@),
        InitStage::FindSnapshots { ws_id, .. } => Some(ws_id@),
        InitStage::SaveIndex { ws_id, .. } => Some(ws_id@),
        InitStage::LoadIndex { ws_id, .. } => Some(ws_id@),
        InitStage::RecoverSnapshots { ws_id, .. } => Some(ws_id@),
        InitStage::SaveRecovered { ws_id, .. } => Some(ws_id@),
        InitStage::LoadPolicy { ws_id, .. } => Some(ws_id@),
        _ => None,
    }
}

/// An initialization stays with its path, but for resolving it, and with its identifier once it has
/// one. The daemon's state changes only with the last step, which registers the workspace with the
/// index that the stage holds.
pub proof fn lemma_initializations_stay_with_their_workspace(
    stage: InitStage,
    state: &mut DaemonState,
    event: InitEvent,
    next: InitStage,
)
    requires
        call_ensures(InitStage::advance, (stage, state, event), next),
    ensures
        path_of(next) is Some && !(stage is ResolvePath) ==> path_of(next) == path_of(stage),
        stage is ResolvePath && path_of(next) is Some && next != stage ==> (event
            matches InitEvent::Resolved(Resolution::Resolved(q)) && path_of(next) == Some(q@)),
        id_of(stage) is Some && path_of(next) is Some ==> id_of(next) == id_of(stage),
        (stage, event) matches (
            InitStage::LoadPolicy { path, ws_id, index },
            InitEvent::PolicyLoaded(loaded),
        ) ==> {
            &&& next matches InitStage::Done(r)
            &&& initialized_as(r, ws_id@)
            &&& rest_stays(*final(state), *old(state))
            &&& registered_with(
                old(state).registry@,
                final(state).registry@,
                ws_id@,
                path@,
                index@,
                loaded,
            )
        },
        !(stage is LoadPolicy && event is PolicyLoaded) ==> *final(state) == *old(state),
{
    let a = old(state).registry@;
    let b = final(state).registry@;
    if let InitStage::LoadPolicy { ws_id, .. } = stage {
        assert(b.by_id.remove(ws_id@) =~= a.by_id.remove(ws_id@));
    }
}

/// Where a step of an initialization fails, the initialization fails, with the reason that was
/// given; only saving the index of an adopted workspace may fail.
pub proof fn lemma_initializations_fail_with_their_steps(
    stage: InitStage,
    state: &mut DaemonState,
    event: InitEvent,
    next: InitStage,
)
    requires
        call_ensures(InitStage::advance, (stage, state, event), next),
    ensures
        event matches InitEvent::Failed(e) ==> {
            &&& stage is CheckMount || stage is FindTool || stage is CreateStorage || stage
                is SaveIndex ==> (next matches InitStage::Done(Response::Error { code, message })
                && code == ErrorCode::InternalError && message@ == e@)
            &&& stage is SaveRecovered ==> next is LoadPolicy
        },
        (stage, event) matches (InitStage::CheckMount { .. }, InitEvent::MountChecked { mounted })
            ==> (if mounted {
            next matches InitStage::Done(e) && is_error_of(e, ErrorCode::InvalidPath)
        } else {
            next is CheckOccupants
        }),
        (stage, event) matches (
            InitStage::CheckOccupants { .. },
            InitEvent::OccupantsChecked { refusal },
        ) ==> (match refusal {
            Some(e) => next == InitStage::Done(e),
            None => next is FindTool,
        }),
        (stage, event) matches (InitStage::FindTool { .. }, InitEvent::ToolChecked { found })
            ==> (if found {
            next is ListNames
        } else {
            next matches InitStage::Done(e) && is_error_of(e, ErrorCode::InternalError)
        }),
        (stage, event) matches (InitStage::ProbeBucket { .. }, InitEvent::BucketProbed { exists })
            ==> (if exists {
            next is LoadIndex
        } else {
            next matches InitStage::Done(e) && is_error_of(e, ErrorCode::InvalidPath)
        }),
        (stage, event) matches (InitStage::ListNames { .. }, InitEvent::NamesListed(names)) ==> (next
            matches InitStage::CreateStorage { ws_id, .. } && !names@.contains_key(ws_id@)),
        stage is CreateStorage && event is StorageCreated ==> next is FindSnapshots,
        stage is FindSnapshots && event is SnapshotsFound ==> next is SaveIndex,
        stage is SaveIndex && event is IndexSaved ==> next is LoadPolicy,
        stage is SaveRecovered && event is IndexSaved ==> next is LoadPolicy,
        (stage is SaveIndex || stage is SaveRecovered) && next is LoadPolicy ==> index_of(next)
            == index_of(stage),
        next matches InitStage::Done(r) ==> r is InitOk || r is Error || stage is CheckOccupants
            || stage is Done,
        next matches InitStage::Done(Response::InitOk { .. }) ==> stage is LoadPolicy || stage
            is LookAtPath || stage is InspectPath || stage is CheckOccupants || stage is Done,
{
}

/// The index that the work of a stage is about, where there is one.
pub open spec fn index_of(stage: InitStage) -> Option<IndexView> {
    match stage {
        InitStage::SaveIndex { index, .. } => Some(index@),
        InitStage::RecoverSnapshots { index, .. } => Some(index@),
        InitStage::SaveRecovered { index, .. } => Some(index@),
        InitStage::LoadPolicy { index, .. } => Some(index@),
        _ => None,
    }
}

/// The index of an adopted workspace is what its file holds: snapshots found on disk come in only
/// where it holds none, and the evidence of the file stays.
pub proof fn lemma_adopted_workspaces_keep_their_index(
    stage: InitStage,
    state: &mut DaemonState,
    event: InitEvent,
    next: InitStage,
)
    requires
        call_ensures(InitStage::advance, (stage, state, event), next),
    ensures
        (stage, event) matches (InitStage::LoadIndex { .. }, InitEvent::IndexLoaded(loaded)) ==> {
            &&& next is LoadPolicy || next is RecoverSnapshots
            &&& loaded matches Some(i) ==> index_of(next) == Some(i@)
            &&& loaded is None ==> (index_of(next) matches Some(i) && i.nodes.dom() == Set::<
                Seq<char>,
            >::empty() && i.head is None)
            &&& loaded matches Some(i) ==> (next is RecoverSnapshots <==> i@.nodes.dom() == Set::<
                Seq<char>,
            >::empty())
        },
        (stage, event) matches (
            InitStage::RecoverSnapshots { index, .. },
            InitEvent::SnapshotsFound(found),
        ) ==> {
            &&& next is LoadPolicy || next is SaveRecovered
            &&& index_of(next) matches Some(i)
            &&& i.evidence == index@.evidence
            &&& i.rollbacks == index@.rollbacks
            &&& index@.nodes.dom() != Set::<Seq<char>>::empty() ==> i == index@
            &&& found is None ==> i == index@
            &&& found matches Some(f) ==> (index@.nodes.dom() == Set::<Seq<char>>::empty()
                && f@.nodes.dom() != Set::<Seq<char>>::empty() ==> i.nodes == f@.nodes && i.head
                == f@.head && next is SaveRecovered)
        },
{
    let empty = Map::<Seq<char>, crate::snapshot::MetaView>::empty();
    match stage {
        InitStage::RecoverSnapshots { index, .. } => {
            assert(index@.nodes == empty <==> index@.nodes.dom() == Set::<Seq<char>>::empty()) by {
                if index@.nodes.dom() == Set::<Seq<char>>::empty() {
                    assert(index@.nodes =~= empty);
                }
            }
        },
        _ => {},
    }
    match event {
        InitEvent::SnapshotsFound(Some(f)) => {
            if f@.nodes.dom() == Set::<Seq<char>>::empty() {
                assert(f@.nodes =~= empty);
            }
        },
        InitEvent::IndexLoaded(Some(i)) => {
            if i@.nodes.dom() == Set::<Seq<char>>::empty() {
                assert(i@.nodes =~= empty);
            }
        },
        _ => {},
    }
}

/// Marking the missing snapshots of a workspace changes these marks and nothing else, and says
/// whether it changed any.
pub proof fn lemma_marking_missing_snapshots(
    state: &mut DaemonState,
    ws_id: &str,
    present: StringSet,
    changed: bool,
    k: Seq<char>,
)
    requires
        old(state).registry@.keyed(),
        call_ensures(DaemonState::reconcile_workspace, (state, ws_id, &present), changed),
    ensures
        rest_stays(*final(state), *old(state)),
        final(state).registry@.by_id.remove(ws_id@) == old(state).registry@.by_id.remove(ws_id@),
        final(state).registry@.paths == old(state).registry@.paths,
        !changed ==> final(state).registry@.by_id == old(state).registry@.by_id,
        !old(state).registry@.by_id.contains_key(ws_id@) ==> !changed,
        old(state).registry@.by_id.contains_key(ws_id@) ==> {
            let a = old(state).registry@.by_id[ws_id@];
            let b = final(state).registry@.by_id[ws_id@];
            &&& b.path == a.path && b.policy == a.policy && b.ws_id == a.ws_id && b.policy_failsafe
                == a.policy_failsafe
            &&& b.index.nodes.dom() == a.index.nodes.dom()
            &&& b.index.head == a.index.head
            &&& b.index.evidence == a.index.evidence
            &&& a.index.nodes.contains_key(k) ==> {
                let m = a.index.nodes[k];
                let n = b.index.nodes[k];
                &&& n.missing == !present@.contains_key(k)
                &&& n.pinned == m.pinned && n.message == m.message && n.metadata == m.metadata
                    && n.created_at == m.created_at && n.parent_id == m.parent_id && n.child_ids
                    == m.child_ids
                &&& m.missing != n.missing ==> changed
            }
        },
{
    let a = old(state).registry@;
    let b = final(state).registry@;
    if a.by_id.contains_key(ws_id@) {
        assert(a.by_id[ws_id@].ws_id == ws_id@);
        let x = a.by_id[ws_id@].index;
        let y = b.by_id[ws_id@].index;
        assert(y.nodes.dom() =~= x.nodes.dom());
        if !changed {
            assert(y == x);
            assert(b.by_id[ws_id@] == a.by_id[ws_id@]);
            assert(b.by_id =~= a.by_id);
        }
        if x.nodes.contains_key(k) && x.nodes[k].missing != y.nodes[k].missing {
            assert(x != y);
        }
    }
    assert(b.by_id.remove(ws_id@) =~= a.by_id.remove(ws_id@));
}

/// A recovery is about the workspace that the text finds, and where it is registered.
pub proof fn lemma_recoveries_are_about_a_workspace(
    state: DaemonState,
    workspace: &str,
    canonical: Option<&str>,
    found: Option<&WorkspaceState>,
    r: Result<(String, String), Response>,
)
    requires
        call_ensures(DaemonState::resolve_workspace, (&state, workspace, canonical), found),
        call_ensures(DaemonState::plan_recover, (&state, workspace, canonical), r),
    ensures
        found matches Some(w) ==> (r matches Ok(p) && p.0@ == w.ws_id@ && p.1@ == w.path@),
        found is None ==> (r matches Err(e) && is_error_of(e, ErrorCode::WorkspaceNotFound)),
{
}

/// A workspace is busy only where writes were seen, and seen again.
pub proof fn lemma_resting(first: Option<bool>, second: bool, r: bool)
    requires
        call_ensures(is_quiescent, (first, second), r),
    ensures
        !r <==> first == Some(true) && second,
{
}

proof fn lemma_restored_ids(e: Seq<PersistedWorkspace>, i: int)
    requires
        0 <= i < e.len(),
        forall|j: int| i < j < e.len() ==> (#[trigger] e[j]).ws_id@ != e[i].ws_id@,
    ensures
        crate::restore::restored_ids(e).contains_key(e[i].ws_id@),
        crate::restore::restored_ids(e)[e[i].ws_id@] == e[i].restored(),
    decreases e.len(),
{
    if i < e.len() - 1 {
        let d = e.drop_last();
        assert(d[i] == e[i]);
        assert forall|j: int| i < j < d.len() implies (#[trigger] d[j]).ws_id@ != d[i].ws_id@ by {
            assert(d[j] == e[j]);
        }
        lemma_restored_ids(d, i);
        assert(e[e.len() - 1].ws_id@ != e[i].ws_id@);
    }
}

proof fn lemma_restored_from(e: Seq<PersistedWorkspace>, id: Seq<char>)
    requires
        crate::restore::restored_ids(e).contains_key(id),
    ensures
        exists|i: int| 0 <= i < e.len() && (#[trigger] e[i]).ws_id@ == id,
    decreases e.len(),
{
    if e.last().ws_id@ == id {
        assert(e[e.len() - 1].ws_id@ == id);
    } else {
        let d = e.drop_last();
        lemma_restored_from(d, id);
        let i = choose|i: int| 0 <= i < d.len() && (#[trigger] d[i]).ws_id@ == id;
        assert(e[i].ws_id@ == id);
    }
}

/// A restart registers every workspace of the manifest, and no other: with its path, the policy
/// that was read, and what its index file holds, where a snapshot is marked missing exactly if its
/// subvolume is not there. The configuration and the directories are those that were given.
pub proof fn lemma_restarts_restore_the_manifest(
    entries: Vec<PersistedWorkspace>,
    present: StringMap<StringSet>,
    config: DaemonConfig,
    roots: (String, String),
    state_dir: String,
    method: String,
    r: (DaemonState, Vec<String>),
    i: int,
    k: Seq<char>,
)
    requires
        call_ensures(
            DaemonState::rebuild_from_persisted,
            (entries, &present, config, roots, state_dir, method),
            r,
        ),
        0 <= i < entries@.len(),
        forall|j: int|
            i < j < entries@.len() ==> (#[trigger] entries@[j]).ws_id@ != entries@[i].ws_id@,
    ensures
        r.0.config == config,
        r.0.data_root == roots.0,
        r.0.snapshots_root == roots.1,
        r.0.state_dir == state_dir,
        r.0.selection_method == method,
        forall|id: Seq<char>| #[trigger]
            r.0.registry@.by_id.contains_key(id) ==> exists|j: int|
                0 <= j < entries@.len() && (#[trigger] entries@[j]).ws_id@ == id,
        ({
            let e = entries@[i];
            let w = r.0.registry@.by_id[e.ws_id@];
            let here = present@.contains_key(e.ws_id@) && present@[e.ws_id@].contains_key(k);
            &&& r.0.registry@.by_id.contains_key(e.ws_id@)
            &&& w.ws_id == e.ws_id@
            &&& w.path == e.path@
            &&& has_policy(w, e.policy)
            &&& e.index is None ==> !w.index.nodes.contains_key(k)
            &&& e.index matches Some(x) ==> {
                &&& w.index.nodes.contains_key(k) <==> x@.nodes.contains_key(k)
                &&& w.index.head == x@.head
                &&& w.index.evidence == x@.evidence
                &&& w.index.rollbacks == x@.rollbacks
                &&& x@.nodes.contains_key(k) ==> {
                    let m = x@.nodes[k];
                    let n = w.index.nodes[k];
                    &&& n.missing == !here
                    &&& n.pinned == m.pinned && n.message == m.message && n.metadata == m.metadata
                        && n.created_at == m.created_at && n.parent_id == m.parent_id
                        && n.child_ids == m.child_ids
                    &&& m.missing != n.missing ==> texts(r.1@).contains(e.ws_id@)
                }
            }
        }),
{
    let e = entries@[i];
    let ids = crate::restore::restored_ids(entries@);
    lemma_restored_ids(entries@, i);
    assert forall|id: Seq<char>| #[trigger] r.0.registry@.by_id.contains_key(id) implies exists|
        j: int,
    | 0 <= j < entries@.len() && (#[trigger] entries@[j]).ws_id@ == id by {
        lemma_restored_from(entries@, id);
    }
    let w = r.0.registry@.by_id[e.ws_id@];
    let disk = crate::restore::on_disk(present@, e.ws_id@);
    assert(w == crate::restore::reconciled_workspace(ids[e.ws_id@], disk));
    assert(disk.contains(k) <==> present@.contains_key(e.ws_id@)
        && present@[e.ws_id@].contains_key(k));
    if let Some(x) = e.index {
        let before = ids[e.ws_id@].index;
        assert(before == x@);
        if x@.nodes.contains_key(k) && x@.nodes[k].missing != w.index.nodes[k].missing {
            assert(w.index.nodes[k] != before.nodes[k]);
            assert(crate::restore::changes(ids, present@, e.ws_id@));
        }
    }
}

/// A directory of snapshots without an index file restores nothing. With one, the workspace comes
/// back under the name of the directory, at the path that the file names, with the policy that was
/// read; and with the snapshots of the file, or those that were found where it holds none.
pub proof fn lemma_directories_restore_workspaces(
    state: &mut DaemonState,
    bucket: SnapshotBucket,
    save: bool,
)
    requires
        call_ensures(DaemonState::rebuild_single_workspace, (state, bucket), save),
    ensures
        rest_stays(*final(state), *old(state)),
        bucket.index is None ==> final(state).registry@ == old(state).registry@ && !save,
        bucket.index matches Some(x) ==> {
            let a = old(state).registry@;
            let b = final(state).registry@;
            let id = bucket.ws_id@;
            let gap = x@.nodes.dom() == Set::<Seq<char>>::empty() && (bucket.found matches Some(f)
                && f@.nodes.dom() != Set::<Seq<char>>::empty());
            &&& b.by_id.remove(id) == a.by_id.remove(id)
            &&& b.paths == a.paths.insert(normal_path(x@.workspace_path), id)
            &&& b.by_id.contains_key(id)
            &&& b.by_id[id].ws_id == id
            &&& b.by_id[id].path == x@.workspace_path
            &&& has_policy(b.by_id[id], bucket.policy)
            &&& b.by_id[id].index.evidence == x@.evidence
            &&& b.by_id[id].index.rollbacks == x@.rollbacks
            &&& save <==> gap
            &&& !gap ==> b.by_id[id].index == x@
            &&& gap ==> b.by_id[id].index.nodes == bucket.found->0@.nodes
        },
{
    let empty = Map::<Seq<char>, crate::snapshot::MetaView>::empty();
    if let Some(x) = bucket.index {
        if x@.nodes.dom() == Set::<Seq<char>>::empty() {
            assert(x@.nodes =~= empty);
        }
        if let Some(f) = bucket.found {
            if f@.nodes.dom() == Set::<Seq<char>>::empty() {
                assert(f@.nodes =~= empty);
            }
        }
        assert(final(state).registry@.by_id.remove(bucket.ws_id@) =~= old(state).registry@.by_id.remove(bucket.ws_id@));
    }
}

proof fn lemma_bucket_ids(b: Seq<SnapshotBucket>, i: int)
    requires
        0 <= i < b.len(),
        b[i].index is Some,
        forall|j: int| i < j < b.len() ==> (#[trigger] b[j]).ws_id@ != b[i].ws_id@,
    ensures
        crate::restore::bucket_ids(b).contains_key(b[i].ws_id@),
        Some(crate::restore::bucket_ids(b)[b[i].ws_id@]) == b[i].restored(),
    decreases b.len(),
{
    if i < b.len() - 1 {
        let d = b.drop_last();
        assert(d[i] == b[i]);
        assert forall|j: int| i < j < d.len() implies (#[trigger] d[j]).ws_id@ != d[i].ws_id@ by {
            assert(d[j] == b[j]);
        }
        lemma_bucket_ids(d, i);
        assert(b[b.len() - 1].ws_id@ != b[i].ws_id@);
    }
}

proof fn lemma_bucket_from(b: Seq<SnapshotBucket>, id: Seq<char>)
    requires
        crate::restore::bucket_ids(b).contains_key(id),
    ensures
        exists|i: int| 0 <= i < b.len() && (#[trigger] b[i]).ws_id@ == id && b[i].index is Some,
    decreases b.len(),
{
    if b.last().index is Some && b.last().ws_id@ == id {
        assert(b[b.len() - 1].ws_id@ == id && b[b.len() - 1].index is Some);
    } else {
        let d = b.drop_last();
        lemma_bucket_from(d, id);
        let i = choose|i: int|
            0 <= i < d.len() && (#[trigger] d[i]).ws_id@ == id && d[i].index is Some;
        assert(b[i].ws_id@ == id && b[i].index is Some);
    }
}

/// A restart without a manifest registers the workspace of every directory of snapshots that has an
/// index file, and no other.
pub proof fn lemma_restarts_restore_directories(
    buckets: Vec<SnapshotBucket>,
    config: DaemonConfig,
    roots: (String, String),
    state_dir: String,
    r: (DaemonState, Vec<String>),
    i: int,
)
    requires
        call_ensures(
            DaemonState::rebuild_from_disk,
            (buckets, config, roots, state_dir),
            r,
        ),
        0 <= i < buckets@.len(),
        buckets@[i].index is Some,
        forall|j: int|
            i < j < buckets@.len() ==> (#[trigger] buckets@[j]).ws_id@ != buckets@[i].ws_id@,
    ensures
        r.0.config == config,
        r.0.data_root == roots.0,
        r.0.snapshots_root == roots.1,
        r.0.state_dir == state_dir,
        r.0.selection_method@ == "auto-detect"@,
        forall|id: Seq<char>| #[trigger]
            r.0.registry@.by_id.contains_key(id) ==> exists|j: int|
                0 <= j < buckets@.len() && (#[trigger] buckets@[j]).ws_id@ == id
                    && buckets@[j].index is Some,
        ({
            let b = buckets@[i];
            let x = b.index->0@;
            let w = r.0.registry@.by_id[b.ws_id@];
            &&& r.0.registry@.by_id.contains_key(b.ws_id@)
            &&& w.ws_id == b.ws_id@
            &&& w.path == x.workspace_path
            &&& has_policy(w, b.policy)
            &&& w.index.evidence == x.evidence
            &&& w.index.rollbacks == x.rollbacks
            &&& x.nodes.dom() != Set::<Seq<char>>::empty() ==> w.index == x
            &&& b.found is None ==> w.index == x
        }),
{
    lemma_bucket_ids(buckets@, i);
    assert forall|id: Seq<char>| #[trigger] r.0.registry@.by_id.contains_key(id) implies exists|
        j: int,
    |
        0 <= j < buckets@.len() && (#[trigger] buckets@[j]).ws_id@ == id && buckets@[j].index
            is Some by {
        lemma_bucket_from(buckets@, id);
    }
}

/// An initialization takes its first steps as they are decided: on what the path itself is, on where
/// it leads, and on what is found there.
pub proof fn lemma_initializations_follow_the_decisions(
    stage: InitStage,
    state: &mut DaemonState,
    event: InitEvent,
    text: &str,
    link: Option<&str>,
    early: EarlyMove,
    resolved: Result<String, Response>,
    checked: CheckedMove,
    next: InitStage,
)
    requires
        call_ensures(InitStage::advance, (stage, state, event), next),
        path_of(stage) == Some(text@),
        event matches InitEvent::Looked(look) ==> call_ensures(
            after_early_look,
            (&*old(state), look),
            early,
        ),
        event matches InitEvent::Resolved(resolution) ==> call_ensures(
            after_resolution,
            (text, resolution),
            resolved,
        ),
        event matches InitEvent::Inspected { found, link: l } ==> crate::text_list::opt_text(l)
            == crate::text_list::opt_str(link) && call_ensures(
            after_check,
            (&*old(state), text, found, link),
            checked,
        ),
    ensures
        stage is LookAtPath && event is Looked ==> (match early {
            EarlyMove::Reply(a) => next matches InitStage::Done(b) && (a
                matches Response::InitOk { ws_id } ==> initialized_as(b, ws_id@)),
            EarlyMove::Adopt { ws_id } => next is LoadIndex && id_of(next) == Some(ws_id@),
            EarlyMove::RemoveLink => next is RemoveLink,
            EarlyMove::Continue => next is ResolvePath,
        }),
        stage is RemoveLink && event is LinkRemoved ==> next is ResolvePath,
        stage is ResolvePath && event is Resolved ==> (match resolved {
            Ok(p) => next is InspectPath && path_of(next) == Some(p@),
            Err(_) => next matches InitStage::Done(e) && is_error_of(e, ErrorCode::InvalidPath),
        }),
        stage is InspectPath && event is Inspected ==> (match checked {
            CheckedMove::Reply(Response::InitOk { ws_id }) => next matches InitStage::Done(b)
                && initialized_as(b, ws_id@),
            CheckedMove::Reply(Response::Error { code, message }) => next matches InitStage::Done(
                Response::Error { code: c, message: m },
            ) && c == code && m@ == message@,
            CheckedMove::Reply(_) => true,
            CheckedMove::ProbeBucket { ws_id } => next is ProbeBucket && id_of(next) == Some(
                ws_id@,
            ),
            CheckedMove::Proceed => next is CheckMount,
        }),
{
}

/// A new workspace starts with the snapshots that were found of it, and with none where none were.
pub proof fn lemma_new_workspaces_start_with_what_was_found(
    path: String,
    ws_id: String,
    state: &mut DaemonState,
    found: Option<SnapshotIndex>,
    next: InitStage,
)
    requires
        call_ensures(
            InitStage::advance,
            (
                (InitStage::FindSnapshots { path, ws_id }),
                state,
                InitEvent::SnapshotsFound(found),
            ),
            next,
        ),
    ensures
        next is SaveIndex,
        index_of(next) matches Some(i) && {
            &&& found matches Some(f) ==> (f@.nodes.dom() != Set::<Seq<char>>::empty() ==> i == f@)
            &&& (found matches Some(f) ==> f@.nodes.dom() == Set::<Seq<char>>::empty()) ==> {
                &&& i.nodes.dom() == Set::<Seq<char>>::empty()
                &&& i.head is None
                &&& i.workspace_path == path@
            }
        },
{
    let empty = Map::<Seq<char>, crate::snapshot::MetaView>::empty();
    if let Some(f) = found {
        if f@.nodes.dom() == Set::<Seq<char>>::empty() {
            assert(f@.nodes =~= empty);
        }
    }
}

proof fn lemma_restored_paths(e: Seq<PersistedWorkspace>, i: int)
    requires
        0 <= i < e.len(),
        forall|j: int|
            i < j < e.len() ==> normal_path((#[trigger] e[j]).path@) != normal_path(e[i].path@),
    ensures
        crate::restore::restored_paths(e).contains_key(normal_path(e[i].path@)),
        crate::restore::restored_paths(e)[normal_path(e[i].path@)] == e[i].ws_id@,
    decreases e.len(),
{
    if i < e.len() - 1 {
        let d = e.drop_last();
        assert(d[i] == e[i]);
        assert forall|j: int| i < j < d.len() implies normal_path((#[trigger] d[j]).path@)
            != normal_path(d[i].path@) by {
            assert(d[j] == e[j]);
        }
        lemma_restored_paths(d, i);
        assert(normal_path(e[e.len() - 1].path@) != normal_path(e[i].path@));
    }
}

proof fn lemma_restored_paths_from(e: Seq<PersistedWorkspace>, p: Seq<char>)
    requires
        crate::restore::restored_paths(e).contains_key(p),
    ensures
        exists|i: int| 0 <= i < e.len() && normal_path((#[trigger] e[i]).path@) == p,
    decreases e.len(),
{
    if normal_path(e.last().path@) == p {
        assert(normal_path(e[e.len() - 1].path@) == p);
    } else {
        let d = e.drop_last();
        lemma_restored_paths_from(d, p);
        let i = choose|i: int| 0 <= i < d.len() && normal_path((#[trigger] d[i]).path@) == p;
        assert(normal_path(e[i].path@) == p);
    }
}

/// After a restart each path of the manifest leads to its workspace, and no other path leads
/// anywhere.
pub proof fn lemma_restarts_restore_paths(
    entries: Vec<PersistedWorkspace>,
    present: StringMap<StringSet>,
    config: DaemonConfig,
    roots: (String, String),
    state_dir: String,
    method: String,
    r: (DaemonState, Vec<String>),
    i: int,
)
    requires
        call_ensures(
            DaemonState::rebuild_from_persisted,
            (entries, &present, config, roots, state_dir, method),
            r,
        ),
        0 <= i < entries@.len(),
        forall|j: int|
            i < j < entries@.len() ==> normal_path((#[trigger] entries@[j]).path@) != normal_path(
                entries@[i].path@,
            ),
    ensures
        ({
            let e = entries@[i];
            let p = normal_path(e.path@);
            r.0.registry@.paths.contains_key(p) && r.0.registry@.paths[p] == e.ws_id@
        }),
        forall|p: Seq<char>| #[trigger]
            r.0.registry@.paths.contains_key(p) ==> exists|j: int|
                0 <= j < entries@.len() && normal_path((#[trigger] entries@[j]).path@) == p,
{
    lemma_restored_paths(entries@, i);
    assert forall|p: Seq<char>| #[trigger] r.0.registry@.paths.contains_key(p) implies exists|
        j: int,
    | 0 <= j < entries@.len() && normal_path((#[trigger] entries@[j]).path@) == p by {
        lemma_restored_paths_from(entries@, p);
    }
}

proof fn lemma_saved_buckets(b: Seq<SnapshotBucket>, id: Seq<char>)
    ensures
        crate::restore::buckets_to_save(b).contains(id) <==> exists|i: int|
            0 <= i < b.len() && (#[trigger] b[i]).to_save() && b[i].ws_id@ == id,
    decreases b.len(),
{
    if b.len() > 0 {
        let d = b.drop_last();
        let s = crate::restore::buckets_to_save(d);
        lemma_saved_buckets(d, id);
        assert forall|i: int| 0 <= i < d.len() implies d[i] == #[trigger] b[i] by {}
        if b.last().to_save() {
            assert(s.push(b.last().ws_id@).last() == b.last().ws_id@);
            assert(b[b.len() - 1].to_save());
            if s.contains(id) {
                let j = choose|j: int| 0 <= j < s.len() && s[j] == id;
                assert(s.push(b.last().ws_id@)[j] == id);
            }
            if s.push(b.last().ws_id@).contains(id) && id != b.last().ws_id@ {
                let j = choose|j: int|
                    0 <= j < s.len() + 1 && s.push(b.last().ws_id@)[j] == id;
                assert(s[j] == id);
            }
        }
        if exists|i: int| 0 <= i < d.len() && (#[trigger] d[i]).to_save() && d[i].ws_id@ == id {
            let i = choose|i: int|
                0 <= i < d.len() && (#[trigger] d[i]).to_save() && d[i].ws_id@ == id;
            assert(b[i].to_save() && b[i].ws_id@ == id);
        }
        if exists|i: int| 0 <= i < b.len() && (#[trigger] b[i]).to_save() && b[i].ws_id@ == id {
            let i = choose|i: int|
                0 <= i < b.len() && (#[trigger] b[i]).to_save() && b[i].ws_id@ == id;
            if i < d.len() {
                assert(d[i].to_save() && d[i].ws_id@ == id);
            }
        }
    }
}

/// After a restart without a manifest exactly the indexes are saved that got snapshots from their
/// directory.
pub proof fn lemma_restarts_save_what_they_found(
    buckets: Vec<SnapshotBucket>,
    config: DaemonConfig,
    roots: (String, String),
    state_dir: String,
    r: (DaemonState, Vec<String>),
    id: Seq<char>,
)
    requires
        call_ensures(
            DaemonState::rebuild_from_disk,
            (buckets, config, roots, state_dir),
            r,
        ),
    ensures
        texts(r.1@).contains(id) <==> exists|i: int|
            0 <= i < buckets@.len() && gains(#[trigger] buckets@[i]) && buckets@[i].ws_id@ == id,
{
    lemma_saved_buckets(buckets@, id);
    assert forall|i: int| 0 <= i < buckets@.len() implies gains(#[trigger] buckets@[i])
        == buckets@[i].to_save() by {
        let b = buckets@[i];
        let empty = Map::<Seq<char>, crate::snapshot::MetaView>::empty();
        if let Some(x) = b.index {
            if x@.nodes.dom() == Set::<Seq<char>>::empty() {
                assert(x@.nodes =~= empty);
            }
        }
        if let Some(f) = b.found {
            if f@.nodes.dom() == Set::<Seq<char>>::empty() {
                assert(f@.nodes =~= empty);
            }
        }
    }
    if texts(r.1@).contains(id) {
        let i = choose|i: int|
            0 <= i < buckets@.len() && (#[trigger] buckets@[i]).to_save() && buckets@[i].ws_id@
                == id;
        assert(gains(buckets@[i]));
    }
    if exists|i: int|
        0 <= i < buckets@.len() && gains(#[trigger] buckets@[i]) && buckets@[i].ws_id@ == id {
        let i = choose|i: int|
            0 <= i < buckets@.len() && gains(#[trigger] buckets@[i]) && buckets@[i].ws_id@ == id;
        assert(buckets@[i].to_save());
    }
}

/// Whether the index file of a directory holds no snapshots while some were found in it.
pub open spec fn gains(b: SnapshotBucket) -> bool {
    &&& b.index matches Some(x)
    &&& x@.nodes.dom() == Set::<Seq<char>>::empty()
    &&& b.found matches Some(f)
    &&& f@.nodes.dom() != Set::<Seq<char>>::empty()
}

/// A link into the storage stands for the workspace that its target is named after.
pub proof fn lemma_links_stand_for_their_target(
    state: DaemonState,
    look: EarlyLook,
    target: &str,
    name: Option<String>,
    r: EarlyMove,
)
    requires
        call_ensures(after_early_look, (&state, look), r),
        look matches EarlyLook::Link { target: t, .. } ==> t@ == target@,
        call_ensures(file_name, (target,), name),
        name is Some,
    ensures
        r matches EarlyMove::Adopt { ws_id } ==> ws_id@ == name->0@,
        r matches EarlyMove::Reply(a) ==> initialized_as(a, name->0@),
{
}

/// A path stands for the workspace that is registered there, where its link leads to that
/// workspace's subvolume; and a subvolume for the workspace of its name.
pub proof fn lemma_paths_stand_for_their_workspace(
    state: DaemonState,
    path: &str,
    found: Found,
    link: Option<&str>,
    mount: &str,
    root: &str,
    id: &str,
    subvolume: String,
    below: &str,
    same: bool,
    step: Option<String>,
    r: CheckedMove,
)
    requires
        call_ensures(after_check, (&state, path, found, link), r),
        mount@ == state.config.mount_path@,
        root@ == state.data_root@,
        call_ensures(single_component_below, (path, mount), step),
        found_at(state.registry@, path@) ==> id@
            == state.registry@.by_id[state.registry@.paths[normal_path(path@)]].ws_id,
        call_ensures(join_path, (root, id), subvolume),
        below@ == subvolume@,
        link matches Some(l) ==> call_ensures(same_path, (l, below), same),
    ensures
        found == Found::Directory && found_at(state.registry@, path@) ==> {
            &&& link is Some && same ==> (r matches CheckedMove::Reply(a) && initialized_as(
                a,
                id@,
            ))
            &&& !(link is Some && same) ==> (r matches CheckedMove::Reply(a) && is_error_of(
                a,
                ErrorCode::InternalError,
            ))
        },
        !found_at(state.registry@, path@) ==> {
            &&& r matches CheckedMove::Reply(a) ==> (a matches Response::InitOk { ws_id } ==> (step
                matches Some(s) && s@ == ws_id@))
            &&& r matches CheckedMove::ProbeBucket { ws_id } ==> (step matches Some(s) && s@
                == ws_id@)
        },
{
}

/// A new workspace gets the identifier of its path where that is free, and a variant of it where it
/// is not.
pub proof fn lemma_storage_is_named_after_the_path(
    path: String,
    state: &mut DaemonState,
    names: StringSet,
    text: &str,
    base: String,
    next: InitStage,
)
    requires
        text@ == path@,
        call_ensures(generate_ws_id_base, (text,), base),
        call_ensures(
            InitStage::advance,
            ((InitStage::ListNames { path }), state, InitEvent::NamesListed(names)),
            next,
        ),
    ensures
        next matches InitStage::CreateStorage { ws_id, .. } && {
            &&& !names@.contains_key(base@) ==> ws_id@ == base@
            &&& names@.contains_key(base@) ==> ws_id@.len() > base@.len() && ws_id@.take(
                base@.len() as int,
            ) == base@ && ws_id@[base@.len() as int] == '-'
        },
{
    reveal_strlit("-");
    let b = base@;
    let d = names@.dom();
    if let InitStage::CreateStorage { ws_id, .. } = next {
        let n = choose|n: nat| #[trigger]
            crate::lifecycle::first_free(b, d, n) && ws_id@ == crate::ids::ws_id_candidate(b, n);
        if !names@.contains_key(b) {
            if n >= 2 {
                assert(d.contains(crate::ids::ws_id_candidate(b, 1)));
            }
        } else {
            crate::text::lemma_decimal_reads_back(n);
            assert(ws_id@.take(b.len() as int) =~= b);
        }
    }
}

/// A restart without a manifest finds each workspace at the path that its index file names, in the
/// spelling that it is named in.
pub proof fn lemma_restarts_find_directories_at_their_paths(
    buckets: Vec<SnapshotBucket>,
    config: DaemonConfig,
    roots: (String, String),
    state_dir: String,
    r: (DaemonState, Vec<String>),
    i: int,
)
    requires
        call_ensures(
            DaemonState::rebuild_from_disk,
            (buckets, config, roots, state_dir),
            r,
        ),
        0 <= i < buckets@.len(),
        buckets@[i].index is Some,
        forall|j: int|
            0 <= j < buckets@.len() && j != i && (#[trigger] buckets@[j]).index is Some
                ==> normal_path(buckets@[j].index->0@.workspace_path) != normal_path(
                buckets@[i].index->0@.workspace_path,
            ),
    ensures
        ({
            let b = buckets@[i];
            let path = b.index->0@.workspace_path;
            let key = normal_path(path);
            let v = r.0.registry@;
            &&& v.paths.contains_key(key) && v.paths[key] == b.ws_id@
            &&& v.spellings.contains_key(key) && v.spellings[key] == path
        }),
{
    lemma_bucket_paths(buckets@, i);
}

proof fn lemma_bucket_paths(b: Seq<SnapshotBucket>, i: int)
    requires
        0 <= i < b.len(),
        b[i].index is Some,
        forall|j: int|
            0 <= j < b.len() && j != i && (#[trigger] b[j]).index is Some ==> normal_path(
                b[j].index->0@.workspace_path,
            ) != normal_path(b[i].index->0@.workspace_path),
    ensures
        ({
            let key = normal_path(b[i].index->0@.workspace_path);
            let p = crate::restore::bucket_paths(b);
            let s = crate::restore::bucket_spellings(b);
            &&& p.contains_key(key) && p[key] == b[i].ws_id@
            &&& s.contains_key(key) && s[key] == b[i].index->0@.workspace_path
        }),
    decreases b.len(),
{
    let d = b.drop_last();
    let key = normal_path(b[i].index->0@.workspace_path);
    assert forall|j: int|
        0 <= j < d.len() && j != i && (#[trigger] d[j]).index is Some implies normal_path(
        d[j].index->0@.workspace_path,
    ) != key by {
        assert(d[j] == b[j]);
    }
    if i < b.len() - 1 {
        assert(d[i] == b[i]);
        lemma_bucket_paths(d, i);
        assert(b[b.len() - 1] == b.last());
    } else {
        lemma_no_bucket_at(d, key);
    }
}

proof fn lemma_no_bucket_at(b: Seq<SnapshotBucket>, key: Seq<char>)
    requires
        forall|j: int|
            0 <= j < b.len() && (#[trigger] b[j]).index is Some ==> normal_path(
                b[j].index->0@.workspace_path,
            ) != key,
    ensures
        !crate::restore::bucket_spellings(b).contains_key(key),
    decreases b.len(),
{
    if b.len() > 0 {
        let d = b.drop_last();
        assert forall|j: int| 0 <= j < d.len() && (#[trigger] d[j]).index is Some implies normal_path(
            d[j].index->0@.workspace_path,
        ) != key by {
            assert(d[j] == b[j]);
        }
        lemma_no_bucket_at(d, key);
        assert(b[b.len() - 1] == b.last());
    }
}

} // verus!
