//! The daemon's state and the answers that come from it.

use crate::config::{joined, ConfigReport, DaemonConfig, FileConfig, WsCkptError, INDEXES_DIR};
use crate::ids::{strip_trailing_slashes, stripped_path};
use crate::index::SnapshotIndex;
use crate::lookup::ResolveError;
use crate::message::{
    error_resp, ErrorCode, Response, StatusReport, WorkspaceInfo, ADVISORY_SNAPSHOT_LIMIT,
};
use crate::paths::{components, join_path, joined_path, same_path};
use crate::policy::{
    global_view, keep_op, EffectiveView, GlobalPolicySnapshot, LoadPolicyOutcome, PolicyFieldOp,
    PolicyView, WorkspacePolicy,
};
use crate::registry::{lists_all, Registry, RegistryView, WorkspaceState, WorkspaceView};
use crate::retention::CleanupRetention;
use crate::snapshot::Duplicate;
use crate::text::{trim, trimmed};
use vstd::prelude::*;

verus! {

/// The daemon's state: its workspaces, its configuration, and where its data lies.
pub struct DaemonState {
    pub registry: Registry,
    pub config: DaemonConfig,
    /// Directory of the live workspace subvolumes.
    pub data_root: String,
    /// Directory of the snapshots.
    pub snapshots_root: String,
    /// Directory of the daemon's own records.
    pub state_dir: String,
    /// How the backend was selected.
    pub selection_method: String,
}

/// What a path at a registered location turned out to be.
#[derive(Clone, Copy, Debug, PartialEq, Eq, Structural)]
pub enum PathKind {
    Absent,
    NotSymlink,
    Symlink,
}

/// What the file system shows of a registration: where the registered path and the live
/// subvolume lead, as far as they can be resolved, and what the registered path is.
#[derive(Debug)]
pub struct RegistrationFacts {
    pub registration_target: Option<String>,
    pub live_target: Option<String>,
    pub kind: PathKind,
}

impl RegistrationFacts {
    /// Whether the registered path still leads to the live subvolume.
    pub open spec fn live(self) -> bool {
        match (self.registration_target, self.live_target) {
            (Some(a), Some(b)) => components(a@) == components(b@),
            _ => false,
        }
    }

    /// Whether the registered path still leads to the live subvolume.
    pub fn registration_is_live(&self) -> (r: bool)
        ensures
            r == self.live(),
    {
        match (&self.registration_target, &self.live_target) {
            (Some(a), Some(b)) => same_path(a.as_str(), b.as_str()),
            _ => false,
        }
    }
}

/// The message about a registration that no longer leads to its workspace.
pub open spec fn detached_message(ws_id: Seq<char>, path: Seq<char>, kind: PathKind) -> Seq<char> {
    let cause = match kind {
        PathKind::Absent => "the registered path no longer exists"@,
        PathKind::NotSymlink => "the registered path is no longer a workspace symlink"@,
        PathKind::Symlink =>
            "the registered symlink no longer points at the live workspace subvolume"@,
    };
    let hint = match kind {
        PathKind::NotSymlink =>
            "\n  note: path is currently a regular directory \u{2014} move or rename it before running recover to avoid data loss"@,
        _ => ""@,
    };
    "workspace registered (ws_id="@ + ws_id + ") but "@ + cause + "; run 'ws-ckpt recover -w "@ + path
        + "' to restore, then re-init"@ + hint
}

/// The error that refuses an operation on a workspace whose registered path no longer leads to
/// its live subvolume; none where it does.
pub fn detached_registration_error(ws: &WorkspaceState, facts: &RegistrationFacts) -> (r: Option<
    Response,
>)
    ensures
        match r {
            None => facts.live(),
            Some(e) => !facts.live() && e.is_error(
                ErrorCode::InternalError,
                detached_message(ws.ws_id@, ws.path@, facts.kind),
            ),
        },
{
    if facts.registration_is_live() {
        return None;
    }
    let (cause, hint) = match facts.kind {
        PathKind::Absent => ("the registered path no longer exists", ""),
        PathKind::NotSymlink => (
            "the registered path is no longer a workspace symlink",
            "\n  note: path is currently a regular directory \u{2014} move or rename it before running recover to avoid data loss",
        ),
        PathKind::Symlink => (
            "the registered symlink no longer points at the live workspace subvolume",
            "",
        ),
    };
    let mut m = "workspace registered (ws_id=".to_owned();
    m.append(ws.ws_id.as_str());
    m.append(") but ");
    m.append(cause);
    m.append("; run 'ws-ckpt recover -w ");
    m.append(ws.path.as_str());
    m.append("' to restore, then re-init");
    m.append(hint);
    Some(error_resp(ErrorCode::InternalError, m.as_str()))
}

/// The workspaces for which `p` holds.
pub open spec fn workspaces_where(
    by_id: Map<Seq<char>, WorkspaceView>,
    p: spec_fn(WorkspaceView) -> bool,
) -> Set<Seq<char>> {
    by_id.dom().filter(|k: Seq<char>| p(by_id[k]))
}

/// The identifiers of those among the first `n` workspaces of a list for which `p` holds.
pub open spec fn chosen(
    v: Seq<&WorkspaceState>,
    n: int,
    p: spec_fn(WorkspaceView) -> bool,
) -> Set<Seq<char>> {
    Set::new(
        |k: Seq<char>| exists|j: int| 0 <= j < n && (#[trigger] v[j]).ws_id@ == k && p(v[j]@),
    )
}

proof fn lemma_chosen_none(v: Seq<&WorkspaceState>, p: spec_fn(WorkspaceView) -> bool)
    ensures
        chosen(v, 0, p) == Set::<Seq<char>>::empty(),
{
    assert(chosen(v, 0, p) =~= Set::<Seq<char>>::empty());
}

proof fn lemma_chosen_step(
    v: Seq<&WorkspaceState>,
    by_id: Map<Seq<char>, WorkspaceView>,
    n: int,
    p: spec_fn(WorkspaceView) -> bool,
)
    requires
        lists_all(v, by_id),
        0 <= n < v.len(),
        chosen(v, n, p).finite(),
    ensures
        chosen(v, n + 1, p).finite(),
        chosen(v, n + 1, p).len() == chosen(v, n, p).len() + if p(v[n]@) {
            1int
        } else {
            0
        },
        p(v[n]@) ==> chosen(v, n + 1, p) == chosen(v, n, p).insert(v[n].ws_id@),
        !p(v[n]@) ==> chosen(v, n + 1, p) == chosen(v, n, p),
{
    let a = chosen(v, n, p);
    let b = chosen(v, n + 1, p);
    let id = v[n].ws_id@;
    assert(!a.contains(id)) by {
        if a.contains(id) {
            let j = choose|j: int| 0 <= j < n && (#[trigger] v[j]).ws_id@ == id && p(v[j]@);
            assert(v[j].ws_id@ != v[n].ws_id@);
        }
    }
    assert forall|k: Seq<char>| b.contains(k) == (a.contains(k) || (p(v[n]@) && k == id)) by {
        if a.contains(k) {
            let j = choose|j: int| 0 <= j < n && (#[trigger] v[j]).ws_id@ == k && p(v[j]@);
            assert(b.contains(k));
        }
        if b.contains(k) {
            let j = choose|j: int| 0 <= j < n + 1 && (#[trigger] v[j]).ws_id@ == k && p(v[j]@);
            if j < n {
                assert(a.contains(k));
            }
        }
    }
    if p(v[n]@) {
        assert(b =~= a.insert(id));
    } else {
        assert(b =~= a);
    }
}

proof fn lemma_chosen_all(
    v: Seq<&WorkspaceState>,
    by_id: Map<Seq<char>, WorkspaceView>,
    p: spec_fn(WorkspaceView) -> bool,
)
    requires
        lists_all(v, by_id),
    ensures
        chosen(v, v.len() as int, p) == workspaces_where(by_id, p),
{
    let a = chosen(v, v.len() as int, p);
    let b = workspaces_where(by_id, p);
    assert forall|k: Seq<char>| a.contains(k) == b.contains(k) by {
        if b.contains(k) {
            let i = choose|i: int| 0 <= i < v.len() && (#[trigger] v[i]).ws_id@ == k;
            assert(by_id[k] == v[i]@);
            assert(a.contains(k));
        }
        if a.contains(k) {
            let j = choose|j: int|
                0 <= j < v.len() && (#[trigger] v[j]).ws_id@ == k && p(v[j]@);
            assert(by_id.contains_key(v[j].ws_id@));
        }
    }
    assert(a =~= b);
}

/// The number of a workspace's snapshots as it is reported.
pub open spec fn reported_count(w: WorkspaceView) -> u32 {
    w.index.nodes.len() as u32
}

/// Whether an info describes a workspace.
pub open spec fn describes(i: WorkspaceInfo, w: WorkspaceView) -> bool {
    i.ws_id@ == w.ws_id && i.path@ == w.path && i.snapshot_count == reported_count(w)
}

/// A list with one info for each workspace, in no particular order.
pub open spec fn lists_infos(v: Seq<WorkspaceInfo>, by_id: Map<Seq<char>, WorkspaceView>) -> bool {
    &&& forall|i: int, j: int|
        0 <= i < v.len() && 0 <= j < v.len() && i != j ==> (#[trigger] v[i]).ws_id@ != (
        #[trigger] v[j]).ws_id@
    &&& forall|i: int|
        0 <= i < v.len() ==> by_id.contains_key((#[trigger] v[i]).ws_id@) && describes(
            v[i],
            by_id[v[i].ws_id@],
        )
    &&& forall|k: Seq<char>| #[trigger]
        by_id.contains_key(k) ==> exists|i: int| 0 <= i < v.len() && (#[trigger] v[i]).ws_id@ == k
}

fn workspace_info(w: &WorkspaceState) -> (r: WorkspaceInfo)
    ensures
        describes(r, w@),
{
    WorkspaceInfo {
        ws_id: w.ws_id.clone(),
        path: w.path.clone(),
        snapshot_count: #[verifier::truncate] (w.index.snapshots.len() as u32),
    }
}

/// Whether a snapshot reference is ambiguous within some workspace.
pub open spec fn ambiguous_somewhere(
    by_id: Map<Seq<char>, WorkspaceView>,
    reference: Seq<char>,
) -> bool {
    exists|k: Seq<char>| #[trigger]
        by_id.contains_key(k) && by_id[k].index.resolved(reference) matches Err(
            ResolveError::Ambiguous(_),
        )
}

/// The workspaces in which a snapshot reference stands for a snapshot.
pub open spec fn workspaces_with(
    by_id: Map<Seq<char>, WorkspaceView>,
    reference: Seq<char>,
) -> Set<Seq<char>> {
    workspaces_where(by_id, |w: WorkspaceView| w.index.resolved(reference) is Ok)
}

/// Whether only so many snapshots of each workspace begin with a reference.
pub open spec fn matches_are_finite(
    by_id: Map<Seq<char>, WorkspaceView>,
    reference: Seq<char>,
) -> bool {
    forall|k: Seq<char>| #[trigger]
        by_id.contains_key(k) ==> by_id[k].index.matching(reference).finite()
}

/// The path and the identifier of the one snapshot, of all workspaces, that a reference stands
/// for; none where no workspace has one, where several have, or where one has several.
pub open spec fn resolved_globally(
    by_id: Map<Seq<char>, WorkspaceView>,
    reference: Seq<char>,
) -> Option<(Seq<char>, Seq<char>)> {
    let hits = workspaces_with(by_id, reference);
    if !ambiguous_somewhere(by_id, reference) && hits.len() == 1 {
        let w = by_id[hits.choose()];
        Some((w.path, w.index.resolved(reference)->Ok_0))
    } else {
        None
    }
}

/// The workspace that a text stands for: the one of that identifier, or else the one at the
/// path that the text resolves to, or else the one at the path as it is written.
pub open spec fn resolved_workspace(
    v: RegistryView,
    workspace: Seq<char>,
    canonical: Option<Seq<char>>,
) -> Option<WorkspaceView> {
    let w = stripped_path(workspace);
    if trimmed(workspace).len() == 0 {
        None
    } else if v.get(w) is Some {
        v.get(w)
    } else if canonical is Some && v.at(canonical->0) is Some {
        v.at(canonical->0)
    } else {
        v.at(w)
    }
}

/// The message about a workspace that is not registered.
pub open spec fn not_found_message(workspace: Seq<char>) -> Seq<char> {
    "workspace not found: "@ + workspace
}

/// The error about a workspace that is not registered.
pub fn workspace_not_found_error(workspace: &str) -> (r: Response)
    ensures
        r.is_error(ErrorCode::WorkspaceNotFound, not_found_message(workspace@)),
{
    error_resp(ErrorCode::WorkspaceNotFound, joined("workspace not found: ", workspace).as_str())
}

/// Whether a response reports a policy: the workspace, its override, the global settings, and
/// what is in force.
pub open spec fn is_policy_report(
    r: Response,
    ws_id: Seq<char>,
    local: PolicyView,
    global: EffectiveView,
) -> bool {
    r matches Response::WorkspacePolicyOk { ws_id: i, effective: e, local: l, global: g } && i@
        == ws_id && l@ == local && g@ == global && e@ == local.over(global)
}

/// Whether a report describes a configuration.
pub open spec fn reports_config(r: ConfigReport, c: DaemonConfig) -> bool {
    &&& r.mount_path@ == c.mount_path@
    &&& r.socket_path@ == c.socket_path@
    &&& r.log_level@ == c.log_level@
    &&& r.auto_cleanup == c.auto_cleanup
    &&& r.auto_cleanup_keep@ == c.auto_cleanup_keep@
    &&& r.auto_cleanup_interval_secs == c.auto_cleanup_interval_secs
    &&& r.health_check_interval_secs == c.health_check_interval_secs
    &&& r.img_size == c.img_size
    &&& r.img_max_percent == c.img_max_percent
}

/// The state of a workspace after an attempt to reload its policy. A missing file drops the
/// override; a file that could not be read leaves everything as it is.
pub open spec fn policy_reloaded(
    w: WorkspaceView,
    outcome: Result<LoadPolicyOutcome, WsCkptError>,
) -> WorkspaceView {
    match outcome {
        Ok(o) => WorkspaceView { policy: o.policy(), policy_failsafe: false, ..w },
        Err(_) => w,
    }
}

/// The message that refuses to patch a stand-in policy.
pub open spec fn failsafe_message(ws_id: Seq<char>) -> Seq<char> {
    "workspace "@ + ws_id
        + " has a fail-safe policy in memory (real policy.toml was unreadable at startup). Patching now would overwrite the on-disk policy with the fail-safe value. Run `ws-ckpt reload` to re-read the file, or `ws-ckpt config -w "@
        + ws_id
        + " --reset` to discard the on-disk override and restart from inherit-global."@
}

/// The policy that a patch leads to, or the error that refuses the patch: where the policy in
/// memory stands in for one that could not be read, saving it would overwrite the real one.
pub fn plan_patch(
    ws: &WorkspaceState,
    auto_cleanup: PolicyFieldOp<bool>,
    auto_cleanup_keep: PolicyFieldOp<CleanupRetention>,
) -> (r: Result<WorkspacePolicy, Response>)
    ensures
        match r {
            Ok(p) => !ws.policy_failsafe && p@ == ws.policy@.patched(
                auto_cleanup,
                keep_op(auto_cleanup_keep),
            ),
            Err(e) => ws.policy_failsafe && e.is_error(
                ErrorCode::InternalError,
                failsafe_message(ws.ws_id@),
            ),
        },
{
    if ws.policy_failsafe {
        let mut m = "workspace ".to_owned();
        m.append(ws.ws_id.as_str());
        m.append(
            " has a fail-safe policy in memory (real policy.toml was unreadable at startup). Patching now would overwrite the on-disk policy with the fail-safe value. Run `ws-ckpt reload` to re-read the file, or `ws-ckpt config -w ",
        );
        m.append(ws.ws_id.as_str());
        m.append(" --reset` to discard the on-disk override and restart from inherit-global.");
        return Err(error_resp(ErrorCode::InternalError, m.as_str()));
    }
    Ok(ws.policy.patch(auto_cleanup, auto_cleanup_keep))
}

impl DaemonState {
    /// The state of a daemon without workspaces.
    pub fn new(
        config: DaemonConfig,
        data_root: String,
        snapshots_root: String,
        state_dir: String,
    ) -> (r: Self)
        ensures
            r.registry@.by_id == Map::<Seq<char>, WorkspaceView>::empty(),
            r.registry@.paths == Map::<Seq<char>, Seq<char>>::empty(),
            r.registry@.spellings == Map::<Seq<char>, Seq<char>>::empty(),
            r.config == config,
            r.data_root == data_root,
            r.snapshots_root == snapshots_root,
            r.state_dir == state_dir,
            r.selection_method@ == "auto-detect"@,
    {
        DaemonState {
            registry: Registry::new(),
            config,
            data_root,
            snapshots_root,
            state_dir,
            selection_method: "auto-detect".to_owned(),
        }
    }

    /// Everything but the registry is as it was.
    pub open spec fn same_but_registry(self, old_state: DaemonState) -> bool {
        &&& self.config == old_state.config
        &&& self.data_root == old_state.data_root
        &&& self.snapshots_root == old_state.snapshots_root
        &&& self.state_dir == old_state.state_dir
        &&& self.selection_method == old_state.selection_method
    }

    /// The directory of a workspace's index.
    pub fn index_dir(&self, ws_id: &str) -> (r: String)
        ensures
            r@ == joined_path(joined_path(self.state_dir@, INDEXES_DIR@), ws_id@),
    {
        join_path(join_path(self.state_dir.as_str(), INDEXES_DIR).as_str(), ws_id)
    }

    /// Registers a workspace with a policy.
    pub fn register_workspace_with_policy(
        &mut self,
        ws_id: String,
        path: String,
        index: SnapshotIndex,
        policy: WorkspacePolicy,
        failsafe: bool,
    ) -> (number: usize)
        ensures
            final(self).same_but_registry(*old(self)),
            final(self).registry@ == old(self).registry@.registered(
                WorkspaceView {
                    ws_id: ws_id@,
                    path: path@,
                    index: index@,
                    policy: policy@,
                    policy_failsafe: failsafe,
                },
                number,
            ),
    {
        self.registry.register(
            WorkspaceState { ws_id, path, index, policy, policy_failsafe: failsafe },
        )
    }

    /// Registers a workspace that inherits the global policy.
    pub fn register_workspace(&mut self, ws_id: String, path: String, index: SnapshotIndex) -> (number:
        usize)
        ensures
            final(self).same_but_registry(*old(self)),
            final(self).registry@ == old(self).registry@.registered(
                WorkspaceView {
                    ws_id: ws_id@,
                    path: path@,
                    index: index@,
                    policy: PolicyView::inherit(),
                    policy_failsafe: false,
                },
                number,
            ),
    {
        self.register_workspace_with_policy(ws_id, path, index, WorkspacePolicy::default(), false)
    }

    /// Ends the registration of a workspace.
    pub fn unregister_workspace(&mut self, ws_id: &str)
        ensures
            final(self).same_but_registry(*old(self)),
            final(self).registry@ == old(self).registry@.unregistered(ws_id@),
    {
        self.registry.unregister(ws_id);
    }

    /// The workspace with that identifier.
    pub fn get_by_wsid(&self, ws_id: &str) -> (r: Option<&WorkspaceState>)
        ensures
            match r {
                Some(w) => self.registry@.get(ws_id@) == Some(w@) && w.ws_id@ == ws_id@,
                None => self.registry@.get(ws_id@) is None,
            },
    {
        self.registry.get_by_wsid(ws_id)
    }

    /// The workspace registered at a path.
    pub fn get_by_path(&self, path: &str) -> (r: Option<&WorkspaceState>)
        ensures
            match r {
                Some(w) => self.registry@.at(path@) == Some(w@),
                None => self.registry@.at(path@) is None,
            },
    {
        self.registry.get_by_path(path)
    }

    /// All the workspaces, in no particular order.
    pub fn all_workspaces(&self) -> (r: Vec<&WorkspaceState>)
        ensures
            lists_all(r@, self.registry@.by_id),
    {
        self.registry.all_workspaces()
    }

    /// Finds a workspace by identifier or path. `canonical` is where the text leads as a path,
    /// trailing slashes aside, if it can be resolved.
    pub fn resolve_workspace(&self, workspace: &str, canonical: Option<&str>) -> (r: Option<
        &WorkspaceState,
    >)
        ensures
            match r {
                Some(w) => resolved_workspace(
                    self.registry@,
                    workspace@,
                    crate::text_list::opt_str(canonical),
                ) == Some(w@),
                None => resolved_workspace(
                    self.registry@,
                    workspace@,
                    crate::text_list::opt_str(canonical),
                ) is None,
            },
    {
        if trim(workspace).as_str().is_empty() {
            return None;
        }
        let stripped = strip_trailing_slashes(workspace);
        if let Some(w) = self.registry.get_by_wsid(stripped.as_str()) {
            return Some(w);
        }
        if let Some(path) = canonical {
            if let Some(w) = self.registry.get_by_path(path) {
                return Some(w);
            }
        }
        self.registry.get_by_path(stripped.as_str())
    }

    /// Whether some workspace has cleanup work to do under the policy in force for it.
    pub fn any_ws_has_effective_cleanup(&self) -> (r: bool)
        ensures
            r == exists|k: Seq<char>| #[trigger]
                self.registry@.by_id.contains_key(k) && !self.registry@.by_id[k].policy.over(
                    global_view(self.config),
                ).is_disabled(),
    {
        let all = self.registry.all_workspaces();
        let mut i: usize = 0;
        while i < all.len()
            invariant
                i <= all@.len(),
                lists_all(all@, self.registry@.by_id),
                forall|j: int|
                    0 <= j < i ==> (#[trigger] all@[j])@.policy.over(
                        global_view(self.config),
                    ).is_disabled(),
            decreases all@.len() - i,
        {
            if !all[i].policy.effective_for(&self.config).is_disabled() {
                proof {
                    assert(self.registry@.by_id.contains_key(all@[i as int].ws_id@));
                }
                return true;
            }
            i = i + 1;
        }
        proof {
            assert forall|k: Seq<char>| #[trigger]
                self.registry@.by_id.contains_key(k) implies self.registry@.by_id[k].policy.over(
                global_view(self.config),
            ).is_disabled() by {
                let j = choose|j: int| 0 <= j < all@.len() && (#[trigger] all@[j]).ws_id@ == k;
                assert(all@[j]@.policy.over(global_view(self.config)).is_disabled());
            }
        }
        false
    }

    /// A summary of every workspace, in no particular order.
    pub fn get_all_workspace_info(&self) -> (r: Vec<WorkspaceInfo>)
        ensures
            lists_infos(r@, self.registry@.by_id),
    {
        let all = self.registry.all_workspaces();
        let mut r: Vec<WorkspaceInfo> = Vec::new();
        let mut i: usize = 0;
        while i < all.len()
            invariant
                i <= all@.len(),
                r@.len() == i,
                lists_all(all@, self.registry@.by_id),
                forall|j: int| 0 <= j < i ==> describes(#[trigger] r@[j], all@[j]@),
            decreases all@.len() - i,
        {
            r.push(workspace_info(all[i]));
            i = i + 1;
        }
        proof {
            let by_id = self.registry@.by_id;
            assert forall|i: int| 0 <= i < r@.len() implies by_id.contains_key(
                (#[trigger] r@[i]).ws_id@,
            ) && describes(r@[i], by_id[r@[i].ws_id@]) by {
                assert(by_id.contains_key(all@[i].ws_id@));
            }
            assert forall|i: int, j: int|
                0 <= i < r@.len() && 0 <= j < r@.len() && i != j implies (#[trigger] r@[i]).ws_id@
                != (#[trigger] r@[j]).ws_id@ by {
                assert(all@[i].ws_id@ != all@[j].ws_id@);
            }
            assert forall|k: Seq<char>| #[trigger] by_id.contains_key(k) implies exists|i: int|
                0 <= i < r@.len() && (#[trigger] r@[i]).ws_id@ == k by {
                let i = choose|i: int| 0 <= i < all@.len() && (#[trigger] all@[i]).ws_id@ == k;
                assert(r@[i].ws_id@ == k);
            }
        }
        r
    }

    /// Looks a snapshot up across all workspaces, by identifier or unique prefix, and returns
    /// the path of its workspace and its identifier.
    pub fn resolve_snapshot_globally(&self, reference: &str) -> (r: Option<(String, String)>)
        ensures
            match r {
                Some(f) => resolved_globally(self.registry@.by_id, reference@) == Some(
                    (f.0@, f.1@),
                ),
                None => resolved_globally(self.registry@.by_id, reference@) is None,
            },
            workspaces_with(self.registry@.by_id, reference@).finite(),
            matches_are_finite(self.registry@.by_id, reference@),
    {
        let all = self.registry.all_workspaces();
        let ghost by_id = self.registry@.by_id;
        let ghost p = |w: WorkspaceView| w.index.resolved(reference@) is Ok;
        let mut found: Option<(String, String)> = None;
        let mut count: usize = 0;
        let mut ambiguous = false;
        let mut i: usize = 0;
        proof {
            lemma_chosen_none(all@, p);
        }
        while i < all.len()
            invariant
                i <= all@.len(),
                by_id == self.registry@.by_id,
                p == |w: WorkspaceView| w.index.resolved(reference@) is Ok,
                lists_all(all@, by_id),
                count <= i,
                chosen(all@, i as int, p).finite(),
                count == chosen(all@, i as int, p).len(),
                ambiguous == exists|j: int|
                    0 <= j < i && (#[trigger] all@[j])@.index.resolved(reference@) matches Err(
                        ResolveError::Ambiguous(_),
                    ),
                match found {
                    Some(f) => count > 0 && exists|j: int|
                        0 <= j < i && (#[trigger] all@[j])@.path == f.0@ && all@[j]@.index.resolved(
                            reference@,
                        ) == Ok::<Seq<char>, ResolveError>(f.1@),
                    None => count == 0,
                },
                forall|j: int|
                    0 <= j < i ==> (#[trigger] all@[j])@.index.matching(reference@).finite(),
            decreases all@.len() - i,
        {
            proof {
                lemma_chosen_step(all@, by_id, i as int, p);
            }
            match all[i].index.resolve_by_prefix(reference) {
                Ok(e) => {
                    proof {
                        assert(p(all@[i as int]@));
                    }
                    found = Some((all[i].path.clone(), e.0.clone()));
                    count = count + 1;
                },
                Err(ResolveError::Ambiguous(_)) => {
                    ambiguous = true;
                },
                Err(ResolveError::NotFound) => {},
            }
            i = i + 1;
        }
        proof {
            lemma_chosen_all(all@, by_id, p);
            assert(workspaces_with(by_id, reference@) == workspaces_where(by_id, p));
            assert forall|k: Seq<char>| #[trigger] by_id.contains_key(k) implies by_id[k].index.matching(
                reference@,
            ).finite() by {
                let j = choose|j: int| 0 <= j < all@.len() && (#[trigger] all@[j]).ws_id@ == k;
                assert(all@[j]@ == by_id[k]);
            }
            if ambiguous {
                let j = choose|j: int|
                    0 <= j < all@.len() && (#[trigger] all@[j])@.index.resolved(
                        reference@,
                    ) matches Err(ResolveError::Ambiguous(_));
                assert(by_id.contains_key(all@[j].ws_id@));
            } else {
                if ambiguous_somewhere(by_id, reference@) {
                    let k = choose|k: Seq<char>| #[trigger]
                        by_id.contains_key(k) && by_id[k].index.resolved(reference@) matches Err(
                            ResolveError::Ambiguous(_),
                        );
                    let j = choose|j: int| 0 <= j < all@.len() && (#[trigger] all@[j]).ws_id@ == k;
                    assert(all@[j]@ == by_id[k]);
                }
            }
        }
        if ambiguous || count != 1 {
            return None;
        }
        proof {
            let hits = workspaces_with(by_id, reference@);
            let f = found->0;
            let j = choose|j: int|
                0 <= j < all@.len() && (#[trigger] all@[j])@.path == f.0@ && all@[j]@.index.resolved(
                    reference@,
                ) == Ok::<Seq<char>, ResolveError>(f.1@);
            let id = all@[j].ws_id@;
            assert(by_id.contains_key(id));
            assert(hits.contains(id));
            let c = hits.choose();
            if c != id {
                assert(hits.contains(c));
                assert(hits.remove(id).contains(c));
                assert(hits.remove(id).len() == 0);
            }
        }
        found
    }

    /// Finds the snapshot that a deletion without workspace is about, or the error to answer.
    pub fn delete_target(&self, snapshot: &str) -> (r: Result<(String, String), Response>)
        ensures
            match r {
                Ok(f) => resolved_globally(self.registry@.by_id, snapshot@) == Some((f.0@, f.1@)),
                Err(e) => resolved_globally(self.registry@.by_id, snapshot@) is None && e.is_error(
                    ErrorCode::SnapshotNotFound,
                    if ambiguous_somewhere(self.registry@.by_id, snapshot@) || workspaces_with(
                        self.registry@.by_id,
                        snapshot@,
                    ).len() > 1 {
                        "snapshot '"@ + snapshot@
                            + "' matches in multiple workspaces, please specify --workspace/-w"@
                    } else {
                        "snapshot not found: "@ + snapshot@
                    },
                ),
            },
            workspaces_with(self.registry@.by_id, snapshot@).finite(),
            matches_are_finite(self.registry@.by_id, snapshot@),
    {
        if let Some(f) = self.resolve_snapshot_globally(snapshot) {
            return Ok(f);
        }
        let all = self.registry.all_workspaces();
        let ghost by_id = self.registry@.by_id;
        let ghost p = |w: WorkspaceView| w.index.resolved(snapshot@) is Ok;
        let mut matches: usize = 0;
        let mut ambiguous = false;
        let mut i: usize = 0;
        proof {
            lemma_chosen_none(all@, p);
        }
        while i < all.len()
            invariant
                i <= all@.len(),
                p == |w: WorkspaceView| w.index.resolved(snapshot@) is Ok,
                lists_all(all@, by_id),
                matches <= i,
                chosen(all@, i as int, p).finite(),
                matches == chosen(all@, i as int, p).len(),
                ambiguous == exists|j: int|
                    0 <= j < i && (#[trigger] all@[j])@.index.resolved(snapshot@) matches Err(
                        ResolveError::Ambiguous(_),
                    ),
            decreases all@.len() - i,
        {
            proof {
                lemma_chosen_step(all@, by_id, i as int, p);
            }
            match all[i].index.resolve_by_prefix(snapshot) {
                Ok(_) => {
                    proof {
                        assert(p(all@[i as int]@));
                    }
                    matches = matches + 1;
                },
                Err(ResolveError::Ambiguous(_)) => {
                    ambiguous = true;
                },
                Err(ResolveError::NotFound) => {},
            }
            i = i + 1;
        }
        proof {
            lemma_chosen_all(all@, by_id, p);
            assert(workspaces_with(by_id, snapshot@) == workspaces_where(by_id, p));
            if ambiguous {
                let j = choose|j: int|
                    0 <= j < all@.len() && (#[trigger] all@[j])@.index.resolved(
                        snapshot@,
                    ) matches Err(ResolveError::Ambiguous(_));
                assert(by_id.contains_key(all@[j].ws_id@));
            } else {
                if ambiguous_somewhere(by_id, snapshot@) {
                    let k = choose|k: Seq<char>| #[trigger]
                        by_id.contains_key(k) && by_id[k].index.resolved(snapshot@) matches Err(
                            ResolveError::Ambiguous(_),
                        );
                    let j = choose|j: int| 0 <= j < all@.len() && (#[trigger] all@[j]).ws_id@ == k;
                    assert(all@[j]@ == by_id[k]);
                }
            }
        }
        if ambiguous || matches > 1 {
            let mut m = "snapshot '".to_owned();
            m.append(snapshot);
            m.append("' matches in multiple workspaces, please specify --workspace/-w");
            return Err(error_resp(ErrorCode::SnapshotNotFound, m.as_str()));
        }
        Err(
            error_resp(
                ErrorCode::SnapshotNotFound,
                joined("snapshot not found: ", snapshot).as_str(),
            ),
        )
    }

    /// Answers a status request. `canonical` is where the workspace text leads as a path,
    /// `facts` is what the file system shows of the registration of the workspace asked for,
    /// and `usage` the total and used bytes of the file system, where they can be had.
    pub fn handle_status(
        &self,
        workspace: Option<&str>,
        canonical: Option<&str>,
        facts: &RegistrationFacts,
        uptime_secs: u64,
        usage: Option<(u64, u64)>,
    ) -> (r: Response)
        ensures
            status_answer(
                self.registry@,
                workspace,
                crate::text_list::opt_str(canonical),
                *facts,
                uptime_secs,
                usage,
                r,
            ),
    {
        let workspaces = match workspace {
            Some(text) => {
                let w = match self.resolve_workspace(text, canonical) {
                    Some(w) => w,
                    None => {
                        return workspace_not_found_error(text);
                    },
                };
                if let Some(e) = detached_registration_error(w, facts) {
                    return e;
                }
                let mut one: Vec<WorkspaceInfo> = Vec::new();
                one.push(workspace_info(w));
                one
            },
            None => self.get_all_workspace_info(),
        };
        let (fs_total_bytes, fs_used_bytes) = match usage {
            Some(u) => u,
            None => (0, 0),
        };
        Response::StatusOk {
            report: StatusReport { uptime_secs, workspaces, fs_total_bytes, fs_used_bytes },
        }
    }

    /// Answers a request for the configuration.
    pub fn handle_config(&self) -> (r: Response)
        ensures
            r matches Response::ConfigOk { config } && reports_config(config, self.config),
    {
        Response::ConfigOk { config: self.config.report() }
    }

    /// Answers a request for the configuration and the number of workspaces, and of those with
    /// an override.
    pub fn handle_config_overview(&self) -> (r: Response)
        ensures
            self.registry@.by_id.dom().finite(),
            r matches Response::ConfigOverviewOk { config, ws_total, ws_with_override }
                && reports_config(config, self.config) && ws_total == self.registry@.by_id.len()
                && ws_with_override == workspaces_where(
                self.registry@.by_id,
                |w: WorkspaceView| w.policy != PolicyView::inherit(),
            ).len(),
    {
        let all = self.registry.all_workspaces();
        let ghost by_id = self.registry@.by_id;
        let ghost p = |w: WorkspaceView| w.policy != PolicyView::inherit();
        let ghost any = |w: WorkspaceView| true;
        let mut overrides: usize = 0;
        let mut i: usize = 0;
        proof {
            lemma_chosen_none(all@, p);
            lemma_chosen_none(all@, any);
        }
        while i < all.len()
            invariant
                i <= all@.len(),
                p == |w: WorkspaceView| w.policy != PolicyView::inherit(),
                any == |w: WorkspaceView| true,
                lists_all(all@, by_id),
                overrides <= i,
                chosen(all@, i as int, p).finite(),
                overrides == chosen(all@, i as int, p).len(),
                chosen(all@, i as int, any).finite(),
                i == chosen(all@, i as int, any).len(),
            decreases all@.len() - i,
        {
            proof {
                lemma_chosen_step(all@, by_id, i as int, p);
                lemma_chosen_step(all@, by_id, i as int, any);
            }
            if !all[i].policy.is_empty() {
                overrides = overrides + 1;
            }
            i = i + 1;
        }
        proof {
            lemma_chosen_all(all@, by_id, p);
            lemma_chosen_all(all@, by_id, any);
            assert(workspaces_where(by_id, any) =~= by_id.dom());
        }
        Response::ConfigOverviewOk {
            config: self.config.report(),
            ws_total: all.len(),
            ws_with_override: overrides,
        }
    }

    /// Answers a request for health metrics: the number of workspaces with too many snapshots,
    /// and the usage of the file system, where it can be had.
    pub fn handle_health_advisory(&self, usage: Option<(u64, u64)>) -> (r: Response)
        ensures
            r matches Response::HealthAdvisoryOk {
                over_limit_workspace_count,
                fs_total_bytes,
                fs_used_bytes,
            } && over_limit_workspace_count == workspaces_where(
                self.registry@.by_id,
                |w: WorkspaceView| reported_count(w) > ADVISORY_SNAPSHOT_LIMIT,
            ).len() as u32 && (fs_total_bytes, fs_used_bytes) == usage.unwrap_or((0u64, 0u64)),
    {
        let all = self.registry.all_workspaces();
        let ghost by_id = self.registry@.by_id;
        let ghost p = |w: WorkspaceView| reported_count(w) > ADVISORY_SNAPSHOT_LIMIT;
        let mut count: usize = 0;
        let mut i: usize = 0;
        proof {
            lemma_chosen_none(all@, p);
        }
        while i < all.len()
            invariant
                i <= all@.len(),
                p == |w: WorkspaceView| reported_count(w) > ADVISORY_SNAPSHOT_LIMIT,
                lists_all(all@, by_id),
                count <= i,
                chosen(all@, i as int, p).finite(),
                count == chosen(all@, i as int, p).len(),
            decreases all@.len() - i,
        {
            proof {
                lemma_chosen_step(all@, by_id, i as int, p);
            }
            if workspace_info(all[i]).snapshot_count > ADVISORY_SNAPSHOT_LIMIT {
                count = count + 1;
            }
            i = i + 1;
        }
        proof {
            lemma_chosen_all(all@, by_id, p);
        }
        let (fs_total_bytes, fs_used_bytes) = match usage {
            Some(u) => u,
            None => (0, 0),
        };
        Response::HealthAdvisoryOk {
            over_limit_workspace_count: #[verifier::truncate] (count as u32),
            fs_total_bytes,
            fs_used_bytes,
        }
    }

    /// The three views of a workspace's policy.
    fn policy_report(&self, ws_id: String, local: WorkspacePolicy) -> (r: Response)
        ensures
            is_policy_report(r, ws_id@, local@, global_view(self.config)),
    {
        Response::WorkspacePolicyOk {
            ws_id,
            effective: local.effective_for(&self.config),
            global: GlobalPolicySnapshot::from_config(&self.config),
            local,
        }
    }

    /// Answers a request for a workspace's policy.
    pub fn handle_get_workspace_policy(&self, workspace: &str, canonical: Option<&str>) -> (r:
        Response)
        ensures
            match resolved_workspace(
                self.registry@,
                workspace@,
                crate::text_list::opt_str(canonical),
            ) {
                None => r.is_error(ErrorCode::WorkspaceNotFound, not_found_message(workspace@)),
                Some(w) => is_policy_report(r, w.ws_id, w.policy, global_view(self.config)),
            },
    {
        match self.resolve_workspace(workspace, canonical) {
            None => workspace_not_found_error(workspace),
            Some(w) => self.policy_report(w.ws_id.clone(), w.policy.clone()),
        }
    }

    /// Replaces the policy of a workspace, if it is registered.
    fn set_policy(&mut self, ws_id: &str, policy: WorkspacePolicy, failsafe: bool)
        ensures
            final(self).same_but_registry(*old(self)),
            final(self).registry@ == match old(self).registry@.get(ws_id@) {
                Some(w) => old(self).registry@.updated(
                    WorkspaceView { policy: policy@, policy_failsafe: failsafe, ..w },
                ),
                None => old(self).registry@,
            },
    {
        if let Some(w) = self.registry.get_by_wsid(ws_id) {
            let copy = WorkspaceState {
                ws_id: w.ws_id.clone(),
                path: w.path.clone(),
                index: w.index.duplicate(),
                policy,
                policy_failsafe: failsafe,
            };
            self.registry.update(copy);
        }
    }

    /// Finishes a patch once the new policy was saved, or could not be: memory follows the disk
    /// and never leads it.
    pub fn finish_patch(
        &mut self,
        ws_id: &str,
        new_policy: WorkspacePolicy,
        saved: Result<(), String>,
    ) -> (r: Response)
        ensures
            final(self).same_but_registry(*old(self)),
            match saved {
                Err(e) => final(self).registry@ == old(self).registry@ && r.is_error(
                    ErrorCode::InternalError,
                    "Failed to persist policy.toml: "@ + e@,
                ),
                Ok(_) => {
                    &&& final(self).registry@ == match old(self).registry@.get(ws_id@) {
                        Some(w) => old(self).registry@.updated(
                            WorkspaceView { policy: new_policy@, ..w },
                        ),
                        None => old(self).registry@,
                    }
                    &&& is_policy_report(r, ws_id@, new_policy@, global_view(old(self).config))
                },
            },
    {
        if let Err(e) = &saved {
            return error_resp(
                ErrorCode::InternalError,
                joined("Failed to persist policy.toml: ", e.as_str()).as_str(),
            );
        }
        let failsafe = match self.registry.get_by_wsid(ws_id) {
            Some(w) => w.policy_failsafe,
            None => false,
        };
        self.set_policy(ws_id, new_policy.clone(), failsafe);
        self.policy_report(ws_id.to_owned(), new_policy)
    }

    /// Finishes a reset once the policy file was deleted, or could not be.
    pub fn finish_reset(&mut self, ws_id: &str, deleted: Result<(), String>) -> (r: Response)
        ensures
            final(self).same_but_registry(*old(self)),
            match deleted {
                Err(e) => final(self).registry@ == old(self).registry@ && r.is_error(
                    ErrorCode::InternalError,
                    "Failed to delete policy.toml: "@ + e@,
                ),
                Ok(_) => {
                    &&& final(self).registry@ == match old(self).registry@.get(ws_id@) {
                        Some(w) => old(self).registry@.updated(
                            WorkspaceView {
                                policy: PolicyView::inherit(),
                                policy_failsafe: false,
                                ..w
                            },
                        ),
                        None => old(self).registry@,
                    }
                    &&& is_policy_report(
                        r,
                        ws_id@,
                        PolicyView::inherit(),
                        global_view(old(self).config),
                    )
                },
            },
    {
        if let Err(e) = &deleted {
            return error_resp(
                ErrorCode::InternalError,
                joined("Failed to delete policy.toml: ", e.as_str()).as_str(),
            );
        }
        self.set_policy(ws_id, WorkspacePolicy::default(), false);
        self.policy_report(ws_id.to_owned(), WorkspacePolicy::default())
    }

    /// Takes over what reading a workspace's policy file gave; says whether the workspace is
    /// registered.
    pub fn reload_workspace_policy(
        &mut self,
        ws_id: &str,
        outcome: Result<LoadPolicyOutcome, WsCkptError>,
    ) -> (r: bool)
        ensures
            final(self).same_but_registry(*old(self)),
            r == old(self).registry@.by_id.contains_key(ws_id@),
            final(self).registry@ == policies_reloaded(old(self).registry@, seq![(ws_id@, outcome)]),
    {
        proof {
            let one = seq![(ws_id@, outcome)];
            assert(one.drop_last() =~= Seq::empty());
            reveal_with_fuel(policies_reloaded, 2);
        }
        let registered = self.registry.get_by_wsid(ws_id).is_some();
        match outcome {
            Ok(LoadPolicyOutcome::Missing) => {
                self.set_policy(ws_id, WorkspacePolicy::default(), false);
            },
            Ok(LoadPolicyOutcome::Loaded(p)) => {
                self.set_policy(ws_id, p, false);
            },
            Err(_) => {
                proof {
                    let v = self.registry@;
                    if v.by_id.contains_key(ws_id@) {
                        assert(v.by_id.insert(ws_id@, v.by_id[ws_id@]) =~= v.by_id);
                    }
                }
            },
        }
        registered
    }

    /// Finishes reloading the global configuration from its file.
    pub fn finish_reload_global(&mut self, loaded: Result<FileConfig, WsCkptError>) -> (r: Response)
        ensures
            final(self).registry == old(self).registry,
            final(self).data_root == old(self).data_root,
            final(self).snapshots_root == old(self).snapshots_root,
            final(self).state_dir == old(self).state_dir,
            final(self).selection_method == old(self).selection_method,
            match loaded {
                Err(e) => final(self).config == old(self).config && r.is_error(
                    ErrorCode::InternalError,
                    "Failed to reload config: "@ + e.text(),
                ),
                Ok(f) => {
                    &&& final(self).config.follows_file(f)
                    &&& keeps_fixed_settings(final(self).config, old(self).config)
                    &&& r matches Response::ReloadConfigOk { config, file } && reports_config(
                        config,
                        final(self).config,
                    ) && file == Some(f)
                },
            },
    {
        match loaded {
            Err(e) => error_resp(
                ErrorCode::InternalError,
                joined("Failed to reload config: ", e.to_text().as_str()).as_str(),
            ),
            Ok(f) => {
                self.config.apply_global_config(&f);
                Response::ReloadConfigOk { config: self.config.report(), file: Some(f) }
            },
        }
    }

    /// Takes over what reading the policy files of workspaces gave, one after the other. A file
    /// that could not be read leaves the policy in force.
    pub fn reload_all_workspace_policies(
        &mut self,
        policies: Vec<(String, Result<LoadPolicyOutcome, WsCkptError>)>,
    )
        ensures
            final(self).same_but_registry(*old(self)),
            final(self).registry@ == policies_reloaded(old(self).registry@, outcomes(policies@)),
    {
        let ghost all = outcomes(policies@);
        let ghost v0 = self.registry@;
        let mut rest = policies;
        let ghost mut done: int = 0;
        proof {
            assert(all.take(0) =~= Seq::empty());
        }
        while rest.len() > 0
            invariant
                0 <= done <= all.len(),
                outcomes(rest@) == all.skip(done),
                self.registry@ == policies_reloaded(v0, all.take(done)),
                self.same_but_registry(*old(self)),
            decreases rest@.len(),
        {
            let ghost before = rest@;
            let (ws_id, outcome) = rest.remove(0);
            proof {
                assert(outcomes(before).len() == before.len());
                assert(outcomes(before)[0] == (ws_id@, outcome));
                assert(done < all.len());
                assert(all.skip(done)[0] == all[done]);
                assert(outcomes(rest@) =~= outcomes(before).skip(1));
                assert(all.skip(done).skip(1) =~= all.skip(done + 1));
                assert(all.take(done + 1).drop_last() =~= all.take(done));
                let one = seq![(ws_id@, outcome)];
                assert(one.drop_last() =~= Seq::empty());
                reveal_with_fuel(policies_reloaded, 2);
            }
            self.reload_workspace_policy(ws_id.as_str(), outcome);
            proof {
                done = done + 1;
            }
        }
        proof {
            assert(outcomes(rest@).len() == 0);
            assert(all.take(done) =~= all);
        }
    }

    /// Finishes a full reload: every workspace's policy first, while the old configuration is
    /// still in force, and then the configuration. Where the file could not be read, nothing
    /// changes.
    pub fn finish_reload(
        &mut self,
        loaded: Result<FileConfig, WsCkptError>,
        policies: Vec<(String, Result<LoadPolicyOutcome, WsCkptError>)>,
    ) -> (r: Response)
        ensures
            match loaded {
                Err(e) => *final(self) == *old(self) && r.is_error(
                    ErrorCode::InternalError,
                    "Failed to reload config: "@ + e.text(),
                ),
                Ok(f) => {
                    &&& final(self).registry@ == policies_reloaded(
                        old(self).registry@,
                        outcomes(policies@),
                    )
                    &&& final(self).config.follows_file(f)
                    &&& keeps_fixed_settings(final(self).config, old(self).config)
                    &&& final(self).data_root == old(self).data_root
                    &&& final(self).snapshots_root == old(self).snapshots_root
                    &&& final(self).state_dir == old(self).state_dir
                    &&& final(self).selection_method == old(self).selection_method
                    &&& r matches Response::ReloadConfigOk { config, file } && reports_config(
                        config,
                        final(self).config,
                    ) && file == Some(f)
                },
            },
    {
        if loaded.is_ok() {
            self.reload_all_workspace_policies(policies);
        }
        self.finish_reload_global(loaded)
    }
}

/// The outcomes of a list of policy reads.
pub open spec fn outcomes(
    v: Seq<(String, Result<LoadPolicyOutcome, WsCkptError>)>,
) -> Seq<(Seq<char>, Result<LoadPolicyOutcome, WsCkptError>)> {
    v.map_values(|p: (String, Result<LoadPolicyOutcome, WsCkptError>)| (p.0@, p.1))
}

/// The registry after the policies of some workspaces were read again.
pub open spec fn policies_reloaded(
    v: RegistryView,
    reads: Seq<(Seq<char>, Result<LoadPolicyOutcome, WsCkptError>)>,
) -> RegistryView
    decreases reads.len(),
{
    if reads.len() == 0 {
        v
    } else {
        let before = policies_reloaded(v, reads.drop_last());
        let (id, outcome) = reads.last();
        match before.get(id) {
            Some(w) => before.updated(policy_reloaded(w, outcome)),
            None => before,
        }
    }
}

/// The settings that a reload does not touch are as they were.
pub open spec fn keeps_fixed_settings(c: DaemonConfig, before: DaemonConfig) -> bool {
    &&& c.mount_path == before.mount_path
    &&& c.socket_path == before.socket_path
    &&& c.log_level == before.log_level
    &&& c.img_size == before.img_size
    &&& c.img_max_percent == before.img_max_percent
    &&& c.min_free_bytes == before.min_free_bytes
    &&& c.min_free_percent == before.min_free_percent
}

/// What a status request is answered.
pub open spec fn status_answer(
    v: RegistryView,
    workspace: Option<&str>,
    canonical: Option<Seq<char>>,
    facts: RegistrationFacts,
    uptime_secs: u64,
    usage: Option<(u64, u64)>,
    r: Response,
) -> bool {
    let (total, used) = usage.unwrap_or((0, 0));
    let target = resolved_workspace(v, workspace->0@, canonical);
    if workspace is Some && target is None {
        r.is_error(ErrorCode::WorkspaceNotFound, not_found_message(workspace->0@))
    } else if workspace is Some && !facts.live() {
        r.is_error(
            ErrorCode::InternalError,
            detached_message(target->0.ws_id, target->0.path, facts.kind),
        )
    } else {
        &&& r matches Response::StatusOk { report }
        &&& report.uptime_secs == uptime_secs
        &&& report.fs_total_bytes == total
        &&& report.fs_used_bytes == used
        &&& if workspace is Some {
            report.workspaces@.len() == 1 && describes(report.workspaces@[0], target->0)
        } else {
            lists_infos(report.workspaces@, v.by_id)
        }
    }
}

/// What is stored for a workspace is what every name that finds the workspace gives back: a
/// policy that was set is the policy that is read.
pub proof fn lemma_update_reads_back(
    v: RegistryView,
    workspace: Seq<char>,
    canonical: Option<Seq<char>>,
    w: WorkspaceView,
    stored: WorkspaceView,
)
    requires
        v.keyed(),
        resolved_workspace(v, workspace, canonical) == Some(w),
        stored.ws_id == w.ws_id,
    ensures
        resolved_workspace(v.updated(stored), workspace, canonical) == Some(stored),
        forall|id: Seq<char>| id != w.ws_id ==> #[trigger] v.updated(stored).get(id) == v.get(id),
{
}

/// Policy files that cannot be read change nothing: the policies in force stay in force.
pub proof fn lemma_unreadable_policies_change_nothing(
    v: RegistryView,
    reads: Seq<(Seq<char>, Result<LoadPolicyOutcome, WsCkptError>)>,
)
    requires
        v.keyed(),
        forall|i: int| 0 <= i < reads.len() ==> (#[trigger] reads[i]).1 is Err,
    ensures
        policies_reloaded(v, reads) == v,
    decreases reads.len(),
{
    if reads.len() > 0 {
        lemma_unreadable_policies_change_nothing(v, reads.drop_last());
        let (id, outcome) = reads.last();
        if let Some(w) = v.get(id) {
            assert(v.by_id.insert(w.ws_id, w) =~= v.by_id);
        }
    }
}

/// Resetting a policy drops the override and any stand-in, whatever they were, so that what is
/// in force is the global policy; resetting again changes nothing more.
pub proof fn lemma_reset_inherits(v: RegistryView, w: WorkspaceView, global: EffectiveView)
    ensures
        ({
            let reset = WorkspaceView {
                policy: PolicyView::inherit(),
                policy_failsafe: false,
                ..w
            };
            &&& reset.policy.over(global) == global
            &&& v.updated(reset).get(w.ws_id) == Some(reset)
            &&& v.updated(reset).updated(reset) == v.updated(reset)
        }),
{
    let reset = WorkspaceView { policy: PolicyView::inherit(), policy_failsafe: false, ..w };
    assert(v.updated(reset).updated(reset).by_id =~= v.updated(reset).by_id);
}

} // verus!
