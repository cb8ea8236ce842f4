//! Promises about registered workspaces and what is answered about them.

use crate::config::{DaemonConfig, FileConfig, WsCkptError};
use crate::index::SnapshotIndex;
use crate::laws::display::{ends_with, holds, lemma_stands};
use crate::laws::policies::{does_nothing, in_force, repeats};
use crate::message::{ErrorCode, Response, WorkspaceInfo};
use crate::overrides::{PolicyChange, PolicyEvent, PolicyStage};
use crate::paths::{components, normal_path};
use crate::policy::{LoadPolicyOutcome, PolicyFieldOp, WorkspacePolicy};
use crate::registry::{Registry, RegistryView, WorkspaceEntry, WorkspaceState, WorkspaceView};
use crate::retention::CleanupRetention;
use crate::state::{
    detached_registration_error, plan_patch, DaemonState, PathKind, RegistrationFacts,
};
use crate::text::trimmed;
use vstd::prelude::*;

verus! {

/// Whether a response is an error of that class.
pub open spec fn is_error_of(r: Response, code: ErrorCode) -> bool {
    r matches Response::Error { code: c, .. } && c == code
}

/// Whether everything but the workspaces is as it was.
pub open spec fn rest_stays(a: DaemonState, b: DaemonState) -> bool {
    &&& a.config == b.config
    &&& a.data_root == b.data_root
    &&& a.snapshots_root == b.snapshots_root
    &&& a.state_dir == b.state_dir
    &&& a.selection_method == b.selection_method
}

/// A workspace that is registered is found by its identifier with all that it was registered with,
/// and its path leads to it; no other workspace and no other path changes. Its number is new.
pub proof fn lemma_registering(registry: &mut Registry, w: WorkspaceState, number: usize)
    requires
        call_ensures(Registry::register, (registry, w), number),
    ensures
        final(registry)@.by_id.contains_key(w.ws_id@),
        ({
            let x = final(registry)@.by_id[w.ws_id@];
            &&& x.ws_id == w.ws_id@
            &&& x.path == w.path@
            &&& x.index == w.index@
            &&& x.policy == w.policy@
            &&& x.policy_failsafe == w.policy_failsafe
        }),
        final(registry)@.by_id.remove(w.ws_id@) == old(registry)@.by_id.remove(w.ws_id@),
        final(registry)@.paths == old(registry)@.paths.insert(normal_path(w.path@), w.ws_id@),
        final(registry)@.numbers[w.ws_id@] == number,
        forall|id: Seq<char>| #[trigger]
            old(registry)@.numbers.contains_key(id) ==> old(registry)@.numbers[id] < number,
        old(registry)@.paths.contains_key(normal_path(w.path@)) && old(registry)@.spelled()
            ==> final(registry)@.spellings == old(registry)@.spellings,
        !old(registry)@.paths.contains_key(normal_path(w.path@)) && old(registry)@.spelled()
            ==> final(registry)@.spellings == old(registry)@.spellings.insert(
            normal_path(w.path@),
            w.path@,
        ),
{
    let a = old(registry)@;
    let b = final(registry)@;
    assert(b.by_id.remove(w.ws_id@) =~= a.by_id.remove(w.ws_id@));
    let p = normal_path(w.path@);
    if a.spelled() {
        assert(a.spellings.contains_key(p) <==> a.paths.contains_key(p));
    }
}

/// A workspace that is unregistered is gone, with the path that it was registered at; no other
/// workspace and no other path changes.
pub proof fn lemma_unregistering(registry: &mut Registry, ws_id: &str)
    requires
        call_ensures(Registry::unregister, (registry, ws_id), ()),
    ensures
        !final(registry)@.by_id.contains_key(ws_id@),
        final(registry)@.by_id == old(registry)@.by_id.remove(ws_id@),
        old(registry)@.by_id.contains_key(ws_id@) ==> {
            let p = normal_path(old(registry)@.by_id[ws_id@].path);
            &&& !final(registry)@.paths.contains_key(p)
            &&& final(registry)@.paths == old(registry)@.paths.remove(p)
            &&& final(registry)@.spellings == old(registry)@.spellings.remove(p)
            &&& final(registry)@.numbers == old(registry)@.numbers.remove(ws_id@)
        },
        !old(registry)@.by_id.contains_key(ws_id@) ==> final(registry)@ == old(registry)@,
{
    if !old(registry)@.by_id.contains_key(ws_id@) {
        assert(old(registry)@.by_id.remove(ws_id@) =~= old(registry)@.by_id);
    }
}

/// A new state replaces that of the workspace with the same identifier, and of no other; it
/// registers nothing, and no path changes.
pub proof fn lemma_updating(registry: &mut Registry, w: WorkspaceState)
    requires
        call_ensures(Registry::update, (registry, w), ()),
    ensures
        final(registry)@.by_id.dom() == old(registry)@.by_id.dom(),
        old(registry)@.by_id.contains_key(w.ws_id@) ==> final(registry)@.by_id[w.ws_id@] == w@,
        final(registry)@.by_id.remove(w.ws_id@) == old(registry)@.by_id.remove(w.ws_id@),
        final(registry)@.paths == old(registry)@.paths,
        final(registry)@.spellings == old(registry)@.spellings,
        final(registry)@.numbers == old(registry)@.numbers,
{
    assert(final(registry)@.by_id.remove(w.ws_id@) =~= old(registry)@.by_id.remove(w.ws_id@));
    assert(final(registry)@.by_id.dom() =~= old(registry)@.by_id.dom());
}

/// A workspace is found by its identifier exactly where it is registered, and by a path exactly
/// where the path, however it is spelled, leads to a registered workspace.
pub proof fn lemma_finding(
    registry: Registry,
    ws_id: &str,
    path: &str,
    by_id: Option<&WorkspaceState>,
    id: Option<String>,
    by_path: Option<&WorkspaceState>,
    number: Option<usize>,
)
    requires
        call_ensures(Registry::get_by_wsid, (&registry, ws_id), by_id),
        call_ensures(Registry::wsid_for_exact_registration_path, (&registry, path), id),
        call_ensures(Registry::get_by_path, (&registry, path), by_path),
        call_ensures(Registry::number_of, (&registry, ws_id), number),
    ensures
        by_id is Some <==> registry@.by_id.contains_key(ws_id@),
        by_id matches Some(w) ==> w@ == registry@.by_id[ws_id@] && w.ws_id@ == ws_id@,
        number is Some <==> by_id is Some,
        number matches Some(n) ==> n == registry@.numbers[ws_id@],
        id is Some <==> registry@.paths.contains_key(normal_path(path@)),
        id matches Some(i) ==> i@ == registry@.paths[normal_path(path@)],
        by_path matches Some(w) ==> (id matches Some(i) && registry@.by_id.contains_key(i@) && w@
            == registry@.by_id[i@]),
        id matches Some(i) ==> (registry@.by_id.contains_key(i@) ==> by_path is Some),
{
}

/// A registration is current exactly while its path leads to its identifier and the identifier
/// still has its number.
pub proof fn lemma_current_registrations(
    registry: Registry,
    path: &str,
    ws_id: &str,
    number: usize,
    id: Option<String>,
    now: Option<usize>,
    r: bool,
)
    requires
        call_ensures(
            Registry::exact_registration_is_current,
            (&registry, path, ws_id, number),
            r,
        ),
        call_ensures(Registry::wsid_for_exact_registration_path, (&registry, path), id),
        call_ensures(Registry::number_of, (&registry, ws_id), now),
    ensures
        r <==> (id matches Some(i) && i@ == ws_id@) && now == Some(number),
{
}

/// The workspaces that are listed are those that are registered, each once.
pub proof fn lemma_listing_workspaces(registry: Registry, r: Vec<&WorkspaceState>)
    requires
        call_ensures(Registry::all_workspaces, (&registry,), r),
    ensures
        forall|i: int|
            0 <= i < r@.len() ==> registry@.by_id.contains_key((#[trigger] r@[i]).ws_id@)
                && registry@.by_id[r@[i].ws_id@] == r@[i]@,
        forall|i: int, j: int|
            0 <= i < j < r@.len() ==> (#[trigger] r@[i]).ws_id@ != (#[trigger] r@[j]).ws_id@,
        forall|k: Seq<char>| #[trigger]
            registry@.by_id.contains_key(k) ==> exists|i: int|
                0 <= i < r@.len() && (#[trigger] r@[i]).ws_id@ == k,
{
}

/// The manifest lists each path that leads to a registered workspace, as it was first spelled, with
/// the identifier that it leads to; and nothing else.
pub proof fn lemma_manifest_lists_paths(registry: Registry, r: Vec<WorkspaceEntry>, p: Seq<char>)
    requires
        registry@.spelled(),
        call_ensures(Registry::collect_workspace_entries, (&registry,), r),
    ensures
        forall|i: int|
            0 <= i < r@.len() ==> {
                let key = normal_path((#[trigger] r@[i]).workspace_path@);
                &&& registry@.paths.contains_key(key)
                &&& registry@.paths[key] == r@[i].ws_id@
                &&& registry@.by_id.contains_key(r@[i].ws_id@)
                &&& registry@.spellings[key] == r@[i].workspace_path@
            },
        registry@.paths.contains_key(p) && registry@.by_id.contains_key(registry@.paths[p])
            ==> exists|i: int|
            0 <= i < r@.len() && (#[trigger] r@[i]).ws_id@ == registry@.paths[p]
                && r@[i].workspace_path@ == registry@.spellings[p],
{
    let v = registry@;
    let keys = choose|keys: Seq<Seq<char>>| #[trigger]
        crate::registry::lists_entries(r@, v, keys);
    assert forall|i: int| 0 <= i < r@.len() implies {
        let key = normal_path((#[trigger] r@[i]).workspace_path@);
        &&& v.paths.contains_key(key)
        &&& v.paths[key] == r@[i].ws_id@
        &&& v.by_id.contains_key(r@[i].ws_id@)
        &&& v.spellings[key] == r@[i].workspace_path@
    } by {
        assert(v.paths.contains_key(keys[i]));
        assert(v.spellings.contains_key(keys[i]));
    }
    if v.paths.contains_key(p) && v.by_id.contains_key(v.paths[p]) {
        assert(keys.contains(p));
        let i = choose|i: int| 0 <= i < keys.len() && keys[i] == p;
        assert(r@[i].ws_id@ == v.paths[keys[i]]);
    }
}

/// A registration leads to its workspace only where both ends can be seen and are the same place.
/// Where it does not, the error names the workspace and its path.
pub proof fn lemma_detached_registrations_are_refused(
    ws: WorkspaceState,
    facts: RegistrationFacts,
    live: bool,
    r: Option<Response>,
)
    requires
        call_ensures(RegistrationFacts::registration_is_live, (&facts,), live),
        call_ensures(detached_registration_error, (&ws, &facts), r),
    ensures
        live <==> (facts.registration_target matches Some(a) && (facts.live_target matches Some(b)
            && components(a@) == components(b@))),
        r is None <==> live,
        r matches Some(e) ==> (e matches Response::Error { code, message } && code
            == ErrorCode::InternalError && holds(message@, ws.ws_id@) && holds(
            message@,
            ws.path@,
        )),
{
    if let Some(Response::Error { code, message }) = r {
        let full = crate::state::detached_message(ws.ws_id@, ws.path@, facts.kind);
        let cause = match facts.kind {
            PathKind::Absent => "the registered path no longer exists"@,
            PathKind::NotSymlink => "the registered path is no longer a workspace symlink"@,
            PathKind::Symlink =>
                "the registered symlink no longer points at the live workspace subvolume"@,
        };
        let hint = match facts.kind {
            PathKind::NotSymlink =>
                "\n  note: path is currently a regular directory \u{2014} move or rename it before running recover to avoid data loss"@,
            _ => ""@,
        };
        let a = "workspace registered (ws_id="@;
        let b = ") but "@ + cause + "; run 'ws-ckpt recover -w "@;
        let c = "' to restore, then re-init"@ + hint;
        lemma_stands(message@, a, ws.ws_id@, b + ws.path@ + c);
        lemma_stands(message@, a + ws.ws_id@ + b, ws.path@, c);
    }
}

/// A text finds a registered workspace: the one of that identifier before any other, then the one
/// where the text leads, then the one at the path as it is written. A blank text finds none.
pub proof fn lemma_texts_find_workspaces(
    state: DaemonState,
    workspace: &str,
    canonical: Option<&str>,
    stripped: String,
    r: Option<&WorkspaceState>,
)
    requires
        call_ensures(DaemonState::resolve_workspace, (&state, workspace, canonical), r),
        call_ensures(crate::ids::strip_trailing_slashes, (workspace,), stripped),
    ensures
        trimmed(workspace@).len() == 0 ==> r is None,
        trimmed(workspace@).len() > 0 ==> {
            let v = state.registry@;
            &&& v.by_id.contains_key(stripped@) ==> (r matches Some(w) && w@
                == v.by_id[stripped@])
            &&& !v.by_id.contains_key(stripped@) ==> (canonical matches Some(c)
                ==> found_at(v, c@) ==> (r matches Some(w) && w@ == v.by_id[v.paths[normal_path(
                c@,
            )]]))
            &&& !v.by_id.contains_key(stripped@) && !(canonical matches Some(c) && found_at(v, c@))
                ==> (r is Some <==> found_at(v, stripped@)) && (r matches Some(w) ==> w@
                == v.by_id[v.paths[normal_path(stripped@)]])
        },
        r matches Some(w) ==> exists|k: Seq<char>| #[trigger]
            state.registry@.by_id.contains_key(k) && state.registry@.by_id[k] == w@,
{
    let v = state.registry@;
    if let Some(w) = r {
        if v.by_id.contains_key(stripped@) {
            assert(v.by_id[stripped@] == w@);
        } else if canonical is Some && found_at(v, canonical->0@) {
            assert(v.by_id.contains_key(v.paths[normal_path(canonical->0@)]));
        } else {
            assert(v.by_id.contains_key(v.paths[normal_path(stripped@)]));
        }
    }
}

/// Whether a path leads to a registered workspace.
pub open spec fn found_at(v: RegistryView, path: Seq<char>) -> bool {
    v.paths.contains_key(normal_path(path)) && v.by_id.contains_key(v.paths[normal_path(path)])
}

/// A snapshot that is found without naming its workspace is one that begins with the text, and no
/// snapshot of any other workspace does.
pub proof fn lemma_snapshots_found_everywhere(
    state: DaemonState,
    reference: &str,
    r: Option<(String, String)>,
)
    requires
        call_ensures(DaemonState::resolve_snapshot_globally, (&state, reference), r),
    ensures
        r matches Some(f) ==> exists|k: Seq<char>| #[trigger]
            state.registry@.by_id.contains_key(k) && only_in(
                state.registry@.by_id,
                k,
                reference@,
                f.0@,
                f.1@,
            ),
{
    if let Some(f) = r {
        lemma_only_in(state.registry@.by_id, reference@, f.0@, f.1@);
    }
}

/// Whether a workspace at a path has a snapshot that begins with a text, or is that very text
/// where the workspace has it, while no other workspace has one that begins with it.
pub open spec fn only_in(
    by_id: Map<Seq<char>, WorkspaceView>,
    k: Seq<char>,
    text: Seq<char>,
    path: Seq<char>,
    id: Seq<char>,
) -> bool {
    &&& by_id[k].path == path
    &&& by_id[k].index.nodes.contains_key(id)
    &&& text.is_prefix_of(id)
    &&& by_id[k].index.nodes.contains_key(text) ==> id == text
    &&& forall|j: Seq<char>, s: Seq<char>| #[trigger]
        by_id.contains_key(j) && #[trigger] by_id[j].index.nodes.contains_key(s) && j != k
            ==> !text.is_prefix_of(s)
}

proof fn lemma_only_in(
    by_id: Map<Seq<char>, WorkspaceView>,
    text: Seq<char>,
    path: Seq<char>,
    id: Seq<char>,
)
    requires
        crate::state::resolved_globally(by_id, text) == Some((path, id)),
        crate::state::workspaces_with(by_id, text).finite(),
        crate::state::matches_are_finite(by_id, text),
    ensures
        exists|k: Seq<char>| #[trigger]
            by_id.contains_key(k) && only_in(by_id, k, text, path, id),
{
    let hits = crate::state::workspaces_with(by_id, text);
    let k = hits.choose();
    vstd::set_lib::lemma_set_empty_equivalency_len(hits);
    assert(hits.contains(k));
    let v = by_id[k].index;
    let m = v.matching(text);
    if v.nodes.contains_key(text) {
        assert(text =~= text.subrange(0, text.len() as int));
    } else {
        vstd::set_lib::lemma_set_empty_equivalency_len(m);
        assert(m.contains(m.choose()));
    }
    assert forall|j: Seq<char>, s: Seq<char>| #[trigger]
        by_id.contains_key(j) && #[trigger] by_id[j].index.nodes.contains_key(s) && j
            != k implies !text.is_prefix_of(s) by {
        let n = by_id[j].index.matching(text);
        if text.is_prefix_of(s) {
            assert(n.contains(s));
            vstd::set_lib::lemma_set_empty_equivalency_len(n);
            assert(n.len() > 0);
            if by_id[j].index.resolved(text) is Ok {
                assert(hits.contains(j));
                assert(hits.remove(k).contains(j));
                assert(hits.remove(k).len() == 0);
                vstd::set_lib::lemma_set_empty_equivalency_len(hits.remove(k));
            }
            assert(false);
        }
    }
}

/// A deletion that names no workspace is about the one snapshot that the text finds among all of
/// them, and is refused where there is none, or more than one.
pub proof fn lemma_deletions_without_workspace(
    state: DaemonState,
    snapshot: &str,
    found: Option<(String, String)>,
    r: Result<(String, String), Response>,
)
    requires
        call_ensures(DaemonState::resolve_snapshot_globally, (&state, snapshot), found),
        call_ensures(DaemonState::delete_target, (&state, snapshot), r),
    ensures
        r is Ok <==> found is Some,
        r matches Ok(f) ==> (found matches Some(g) && f.0@ == g.0@ && f.1@ == g.1@),
        r matches Err(e) ==> (e matches Response::Error { code, message } && code
            == ErrorCode::SnapshotNotFound && holds(message@, snapshot@)),
{
    if let Err(Response::Error { code, message }) = r {
        let by_id = state.registry@.by_id;
        if crate::state::ambiguous_somewhere(by_id, snapshot@) || crate::state::workspaces_with(
            by_id,
            snapshot@,
        ).len() > 1 {
            lemma_stands(
                message@,
                "snapshot '"@,
                snapshot@,
                "' matches in multiple workspaces, please specify --workspace/-w"@,
            );
        } else {
            lemma_stands(message@, "snapshot not found: "@, snapshot@, seq![]);
        }
    }
}

/// Whether an info is that of a workspace: its identifier, its path and the number of its
/// snapshots.
pub open spec fn info_of(i: WorkspaceInfo, w: WorkspaceView) -> bool {
    &&& i.ws_id@ == w.ws_id
    &&& i.path@ == w.path
    &&& w.index.nodes.len() <= u32::MAX ==> i.snapshot_count == w.index.nodes.len()
}

/// A status tells the uptime and the usage that it was given, and of each workspace its identifier,
/// its path and the number of its snapshots: of the one asked for alone, or of every registered
/// one.
pub proof fn lemma_status_tells_the_truth(
    state: DaemonState,
    workspace: Option<&str>,
    canonical: Option<&str>,
    facts: RegistrationFacts,
    uptime_secs: u64,
    usage: Option<(u64, u64)>,
    found: Option<&WorkspaceState>,
    live: bool,
    r: Response,
)
    requires
        call_ensures(
            DaemonState::handle_status,
            (&state, workspace, canonical, &facts, uptime_secs, usage),
            r,
        ),
        workspace matches Some(t) ==> call_ensures(
            DaemonState::resolve_workspace,
            (&state, t, canonical),
            found,
        ),
        call_ensures(RegistrationFacts::registration_is_live, (&facts,), live),
    ensures
        workspace is Some && found is None ==> is_error_of(r, ErrorCode::WorkspaceNotFound),
        workspace is Some && found is Some && !live ==> is_error_of(r, ErrorCode::InternalError),
        workspace is None || (found is Some && live) ==> (r matches Response::StatusOk { report }
            && {
            &&& report.uptime_secs == uptime_secs
            &&& usage matches Some(u) ==> report.fs_total_bytes == u.0 && report.fs_used_bytes
                == u.1
            &&& usage is None ==> report.fs_total_bytes == 0 && report.fs_used_bytes == 0
            &&& workspace is Some ==> report.workspaces@.len() == 1 && info_of(
                report.workspaces@[0],
                found->0@,
            )
            &&& workspace is None ==> (forall|i: int|
                0 <= i < report.workspaces@.len() ==> {
                    let w = #[trigger] report.workspaces@[i];
                    state.registry@.by_id.contains_key(w.ws_id@) && info_of(
                        w,
                        state.registry@.by_id[w.ws_id@],
                    )
                })
            &&& workspace is None ==> (forall|k: Seq<char>| #[trigger]
                state.registry@.by_id.contains_key(k) ==> exists|i: int|
                    0 <= i < report.workspaces@.len() && (#[trigger] report.workspaces@[i]).ws_id@
                        == k)
            &&& workspace is None ==> (forall|i: int, j: int|
                0 <= i < j < report.workspaces@.len() ==> (#[trigger] report.workspaces@[i]).ws_id@
                    != (#[trigger] report.workspaces@[j]).ws_id@)
        }),
{
}

/// The configuration is answered as it is.
pub proof fn lemma_configuration_is_answered(state: DaemonState, r: Response, o: Response)
    requires
        call_ensures(DaemonState::handle_config, (&state,), r),
        call_ensures(DaemonState::handle_config_overview, (&state,), o),
    ensures
        r matches Response::ConfigOk { config } && repeats(config, state.config),
        o matches Response::ConfigOverviewOk { config, ws_total, ws_with_override } && {
            &&& repeats(config, state.config)
            &&& ws_total == state.registry@.by_id.len()
            &&& ws_with_override <= ws_total
            &&& ws_with_override == state.registry@.by_id.dom().filter(
                |k: Seq<char>|
                    state.registry@.by_id[k].policy.auto_cleanup is Some
                        || state.registry@.by_id[k].policy.auto_cleanup_keep is Some,
            ).len()
        },
{
    let by_id = state.registry@.by_id;
    let s = crate::state::workspaces_where(
        by_id,
        |w: WorkspaceView| w.policy != crate::policy::PolicyView::inherit(),
    );
    let t = by_id.dom().filter(
        |k: Seq<char>|
            by_id[k].policy.auto_cleanup is Some || by_id[k].policy.auto_cleanup_keep is Some,
    );
    assert(s =~= t) by {
        assert forall|k: Seq<char>| s.contains(k) <==> t.contains(k) by {
            let p = by_id[k].policy;
            assert(p == crate::policy::PolicyView::inherit() <==> p.auto_cleanup is None
                && p.auto_cleanup_keep is None);
        }
    }
    vstd::set_lib::lemma_len_subset(t, by_id.dom());
}

/// A health advisory counts the workspaces with more than a thousand snapshots, and tells the usage
/// that it was given.
pub proof fn lemma_advisories_count(state: DaemonState, usage: Option<(u64, u64)>, r: Response)
    requires
        call_ensures(DaemonState::handle_health_advisory, (&state, usage), r),
    ensures
        r matches Response::HealthAdvisoryOk {
            over_limit_workspace_count,
            fs_total_bytes,
            fs_used_bytes,
        } && {
            &&& usage matches Some(u) ==> fs_total_bytes == u.0 && fs_used_bytes == u.1
            &&& usage is None ==> fs_total_bytes == 0 && fs_used_bytes == 0
            &&& over_limit_workspace_count == state.registry@.by_id.dom().filter(
                |k: Seq<char>| (state.registry@.by_id[k].index.nodes.len() as u32) > 1000,
            ).len() as u32
        },
{
    let by_id = state.registry@.by_id;
    let s = crate::state::workspaces_where(
        by_id,
        |w: WorkspaceView|
            crate::state::reported_count(w) > crate::message::ADVISORY_SNAPSHOT_LIMIT,
    );
    let t = by_id.dom().filter(
        |k: Seq<char>| (by_id[k].index.nodes.len() as u32) > 1000,
    );
    assert(s =~= t);
}

/// There is cleanup work exactly where the policy in force for some workspace does something.
pub proof fn lemma_cleanup_work(state: DaemonState, r: bool, k: Seq<char>)
    requires
        call_ensures(DaemonState::any_ws_has_effective_cleanup, (&state,), r),
    ensures
        ({
            let on = |w: WorkspaceView|
                match w.policy.auto_cleanup {
                    Some(b) => b,
                    None => state.config.auto_cleanup,
                };
            let keep = |w: WorkspaceView|
                match w.policy.auto_cleanup_keep {
                    Some(k) => k,
                    None => state.config.auto_cleanup_keep@,
                };
            &&& state.registry@.by_id.contains_key(k) && !does_nothing(
                on(state.registry@.by_id[k]),
                keep(state.registry@.by_id[k]),
            ) ==> r
            &&& r ==> exists|j: Seq<char>| #[trigger]
                state.registry@.by_id.contains_key(j) && !does_nothing(
                    on(state.registry@.by_id[j]),
                    keep(state.registry@.by_id[j]),
                )
        }),
{
    let by_id = state.registry@.by_id;
    let global = crate::policy::global_view(state.config);
    if r {
        let j = choose|j: Seq<char>| #[trigger]
            by_id.contains_key(j) && !by_id[j].policy.over(global).is_disabled();
        assert(by_id.contains_key(j));
    }
}

/// A patch changes the fields that it mentions and no others. It is refused exactly where the
/// policy in memory stands in for one that could not be read.
pub proof fn lemma_patches_of_stand_ins_are_refused(
    ws: WorkspaceState,
    auto_cleanup: PolicyFieldOp<bool>,
    keep: PolicyFieldOp<CleanupRetention>,
    r: Result<WorkspacePolicy, Response>,
)
    requires
        call_ensures(plan_patch, (&ws, auto_cleanup, keep), r),
    ensures
        r is Err <==> ws.policy_failsafe,
        r matches Err(e) ==> is_error_of(e, ErrorCode::InternalError),
        r matches Ok(p) ==> {
            &&& auto_cleanup matches PolicyFieldOp::SetTo(b) ==> p.auto_cleanup == Some(b)
            &&& auto_cleanup is Unchanged ==> p.auto_cleanup == ws.policy.auto_cleanup
            &&& keep matches PolicyFieldOp::SetTo(k) ==> p@.auto_cleanup_keep == Some(k@)
            &&& keep is Unchanged ==> p@.auto_cleanup_keep == ws.policy@.auto_cleanup_keep
        },
{
}

/// Whether a response tells a policy: the workspace, its own settings, the global ones, and for
/// each field the own one where there is one as what is in force.
pub open spec fn tells_policy(
    r: Response,
    ws_id: Seq<char>,
    local: crate::policy::PolicyView,
    config: DaemonConfig,
) -> bool {
    &&& r matches Response::WorkspacePolicyOk { ws_id: i, effective, local: l, global }
    &&& i@ == ws_id
    &&& l@ == local
    &&& global.auto_cleanup == config.auto_cleanup
    &&& global.auto_cleanup_keep@ == config.auto_cleanup_keep@
    &&& local.auto_cleanup matches Some(b) ==> effective.auto_cleanup == b
    &&& local.auto_cleanup is None ==> effective.auto_cleanup == config.auto_cleanup
    &&& local.auto_cleanup_keep matches Some(k) ==> effective.auto_cleanup_keep@ == k
    &&& local.auto_cleanup_keep is None ==> effective.auto_cleanup_keep@
        == config.auto_cleanup_keep@
}

/// A request for a policy is answered with that of the workspace that the text finds.
pub proof fn lemma_policies_are_answered(
    state: DaemonState,
    workspace: &str,
    canonical: Option<&str>,
    found: Option<&WorkspaceState>,
    r: Response,
)
    requires
        call_ensures(DaemonState::resolve_workspace, (&state, workspace, canonical), found),
        call_ensures(
            DaemonState::handle_get_workspace_policy,
            (&state, workspace, canonical),
            r,
        ),
    ensures
        found matches Some(w) ==> tells_policy(r, w.ws_id@, w.policy@, state.config),
        found is None ==> is_error_of(r, ErrorCode::WorkspaceNotFound),
{
}

/// Whether a registry is another one but for the policy of one workspace, and whether that policy
/// is a stand-in.
pub open spec fn policy_set(
    a: RegistryView,
    b: RegistryView,
    id: Seq<char>,
    policy: crate::policy::PolicyView,
    failsafe: bool,
) -> bool {
    &&& b.by_id.dom() == a.by_id.dom()
    &&& b.by_id.remove(id) == a.by_id.remove(id)
    &&& b.paths == a.paths
    &&& b.numbers == a.numbers
    &&& b.spellings == a.spellings
    &&& a.by_id.contains_key(id) ==> {
        &&& b.by_id[id].policy == policy
        &&& b.by_id[id].policy_failsafe == failsafe
        &&& b.by_id[id].ws_id == a.by_id[id].ws_id
        &&& b.by_id[id].path == a.by_id[id].path
        &&& b.by_id[id].index == a.by_id[id].index
    }
}

/// A policy that was saved is in memory, and one that could not be saved is not; no other
/// workspace changes either way.
pub proof fn lemma_saved_policies_are_in_memory(
    state: &mut DaemonState,
    ws_id: &str,
    policy: WorkspacePolicy,
    saved: Result<(), String>,
    r: Response,
)
    requires
        old(state).registry@.keyed(),
        call_ensures(DaemonState::finish_patch, (state, ws_id, policy, saved), r),
    ensures
        rest_stays(*final(state), *old(state)),
        saved is Ok ==> tells_policy(r, ws_id@, policy@, old(state).config) && policy_set(
            old(state).registry@,
            final(state).registry@,
            ws_id@,
            policy@,
            old(state).registry@.by_id[ws_id@].policy_failsafe,
        ),
        saved is Err ==> final(state).registry@ == old(state).registry@ && is_error_of(
            r,
            ErrorCode::InternalError,
        ),
{
    let a = old(state).registry@;
    let b = final(state).registry@;
    if a.by_id.contains_key(ws_id@) {
        assert(a.by_id[ws_id@].ws_id == ws_id@);
    }
    assert(saved is Ok ==> b.by_id.remove(ws_id@) =~= a.by_id.remove(ws_id@));
    assert(b.by_id.dom() =~= a.by_id.dom());
}

/// A policy that was dropped inherits everything and is no stand-in; one that could not be dropped
/// stays.
pub proof fn lemma_dropped_policies_inherit(
    state: &mut DaemonState,
    ws_id: &str,
    deleted: Result<(), String>,
    r: Response,
)
    requires
        old(state).registry@.keyed(),
        call_ensures(DaemonState::finish_reset, (state, ws_id, deleted), r),
    ensures
        rest_stays(*final(state), *old(state)),
        deleted is Ok ==> ({
            let none = crate::policy::PolicyView { auto_cleanup: None, auto_cleanup_keep: None };
            &&& tells_policy(r, ws_id@, none, old(state).config)
            &&& policy_set(old(state).registry@, final(state).registry@, ws_id@, none, false)
        }),
        deleted is Err ==> final(state).registry@ == old(state).registry@ && is_error_of(
            r,
            ErrorCode::InternalError,
        ),
{
    let a = old(state).registry@;
    let b = final(state).registry@;
    if a.by_id.contains_key(ws_id@) {
        assert(a.by_id[ws_id@].ws_id == ws_id@);
    }
    assert(deleted is Ok ==> b.by_id.remove(ws_id@) =~= a.by_id.remove(ws_id@));
    assert(b.by_id.dom() =~= a.by_id.dom());
}

/// A policy that is read again is in memory and is no stand-in: a missing file inherits everything.
/// A file that cannot be read changes nothing.
pub proof fn lemma_reread_policies_are_in_memory(
    state: &mut DaemonState,
    ws_id: &str,
    outcome: Result<LoadPolicyOutcome, WsCkptError>,
    r: bool,
)
    requires
        old(state).registry@.keyed(),
        call_ensures(DaemonState::reload_workspace_policy, (state, ws_id, outcome), r),
    ensures
        rest_stays(*final(state), *old(state)),
        r <==> old(state).registry@.by_id.contains_key(ws_id@),
        outcome matches Ok(LoadPolicyOutcome::Loaded(p)) ==> policy_set(
            old(state).registry@,
            final(state).registry@,
            ws_id@,
            p@,
            false,
        ),
        outcome matches Ok(LoadPolicyOutcome::Missing) ==> policy_set(
            old(state).registry@,
            final(state).registry@,
            ws_id@,
            crate::policy::PolicyView { auto_cleanup: None, auto_cleanup_keep: None },
            false,
        ),
        outcome is Err ==> final(state).registry@ == old(state).registry@,
{
    let a = old(state).registry@;
    let b = final(state).registry@;
    let reads = seq![(ws_id@, outcome)];
    assert(reads.drop_last() =~= Seq::empty());
    assert(crate::state::policies_reloaded(a, reads.drop_last()) == a);
    assert(reads.last() == (ws_id@, outcome));
    if a.by_id.contains_key(ws_id@) {
        assert(a.by_id[ws_id@].ws_id == ws_id@);
    }
    assert(b.by_id.remove(ws_id@) =~= a.by_id.remove(ws_id@));
    assert(b.by_id.dom() =~= a.by_id.dom());
    if outcome is Err {
        assert(b.by_id =~= a.by_id);
    }
}

/// A configuration file that was read is in force, but for the settings that only a start takes
/// over; one that could not be read changes nothing. Workspaces stay as they are.
pub proof fn lemma_reloads_of_the_configuration(
    state: &mut DaemonState,
    loaded: Result<FileConfig, WsCkptError>,
    r: Response,
)
    requires
        call_ensures(DaemonState::finish_reload_global, (state, loaded), r),
    ensures
        final(state).registry == old(state).registry,
        configuration_reloaded(*old(state), *final(state), loaded, r),
{
}

/// Whether a state has a configuration that was read again, as far as it could be, and a response
/// says so.
pub open spec fn configuration_reloaded(
    a: DaemonState,
    b: DaemonState,
    loaded: Result<FileConfig, WsCkptError>,
    r: Response,
) -> bool {
    &&& b.data_root == a.data_root
    &&& b.snapshots_root == a.snapshots_root
    &&& b.state_dir == a.state_dir
    &&& b.selection_method == a.selection_method
    &&& b.config.mount_path == a.config.mount_path
    &&& b.config.socket_path == a.config.socket_path
    &&& b.config.log_level == a.config.log_level
    &&& b.config.img_size == a.config.img_size
    &&& b.config.img_max_percent == a.config.img_max_percent
    &&& b.config.min_free_bytes == a.config.min_free_bytes
    &&& b.config.min_free_percent == a.config.min_free_percent
    &&& loaded is Err ==> b.config == a.config && is_error_of(r, ErrorCode::InternalError)
    &&& loaded matches Ok(f) ==> {
        &&& in_force(
            f,
            b.config.auto_cleanup,
            b.config.auto_cleanup_keep@,
            b.config.auto_cleanup_interval_secs,
            b.config.health_check_interval_secs,
        )
        &&& b.config.backend_type@ == f.backend.kind@
        &&& r matches Response::ReloadConfigOk { config, file }
        &&& repeats(config, b.config)
        &&& file == Some(f)
    }
}

/// A full reload puts the file in force and, where it could be read, changes nothing of a workspace
/// but its policy. Where the file could not be read, no policy changes either.
pub proof fn lemma_full_reloads(
    state: &mut DaemonState,
    loaded: Result<FileConfig, WsCkptError>,
    policies: Vec<(String, Result<LoadPolicyOutcome, WsCkptError>)>,
    r: Response,
    k: Seq<char>,
)
    requires
        old(state).registry@.keyed(),
        call_ensures(DaemonState::finish_reload, (state, loaded, policies), r),
    ensures
        configuration_reloaded(*old(state), *final(state), loaded, r),
        loaded is Err ==> final(state).registry@ == old(state).registry@,
        final(state).registry@.paths == old(state).registry@.paths,
        final(state).registry@.by_id.dom() == old(state).registry@.by_id.dom(),
        old(state).registry@.by_id.contains_key(k) ==> {
            let a = old(state).registry@.by_id[k];
            let b = final(state).registry@.by_id[k];
            &&& b.ws_id == a.ws_id
            &&& b.path == a.path
            &&& b.index == a.index
            &&& (forall|i: int|
                0 <= i < policies@.len() ==> (#[trigger] policies@[i]).0@ != k || policies@[i].1
                    is Err) ==> b == a
            &&& (policies@.len() > 0 && policies@.last().0@ == k && loaded is Ok) ==> (
            policies@.last().1 matches Ok(LoadPolicyOutcome::Loaded(p)) ==> b.policy == p@
                && !b.policy_failsafe)
        },
{
    if loaded is Ok {
        let reads = crate::state::outcomes(policies@);
        assert(reads.len() == policies@.len());
        lemma_rereading(old(state).registry@, reads, k);
        if policies@.len() > 0 {
            assert(reads.last() == (policies@.last().0@, policies@.last().1));
        }
        if forall|i: int|
            0 <= i < policies@.len() ==> (#[trigger] policies@[i]).0@ != k || policies@[i].1
                is Err {
            assert forall|i: int| 0 <= i < reads.len() implies (#[trigger] reads[i]).0 != k
                || reads[i].1 is Err by {
                assert(reads[i] == (policies@[i].0@, policies@[i].1));
            }
        }
    }
}

proof fn lemma_rereading(
    v: RegistryView,
    reads: Seq<(Seq<char>, Result<LoadPolicyOutcome, WsCkptError>)>,
    k: Seq<char>,
)
    requires
        v.keyed(),
    ensures
        ({
            let b = crate::state::policies_reloaded(v, reads);
            &&& b.keyed()
            &&& b.paths == v.paths
            &&& b.by_id.dom() == v.by_id.dom()
            &&& v.by_id.contains_key(k) ==> {
                &&& b.by_id[k].ws_id == v.by_id[k].ws_id
                &&& b.by_id[k].path == v.by_id[k].path
                &&& b.by_id[k].index == v.by_id[k].index
                &&& (forall|i: int|
                    0 <= i < reads.len() ==> (#[trigger] reads[i]).0 != k || reads[i].1 is Err)
                    ==> b.by_id[k] == v.by_id[k]
                &&& reads.len() > 0 && reads.last().0 == k ==> (reads.last().1 matches Ok(
                    LoadPolicyOutcome::Loaded(p),
                ) ==> b.by_id[k].policy == p@ && !b.by_id[k].policy_failsafe)
            }
        }),
    decreases reads.len(),
{
    if reads.len() > 0 {
        let rest = reads.drop_last();
        lemma_rereading(v, rest, k);
        let before = crate::state::policies_reloaded(v, rest);
        let b = crate::state::policies_reloaded(v, reads);
        let id = reads.last().0;
        if before.by_id.contains_key(id) {
            assert(before.by_id[id].ws_id == id);
        }
        assert(b.by_id.dom() =~= v.by_id.dom());
        if forall|i: int|
            0 <= i < reads.len() ==> (#[trigger] reads[i]).0 != k || reads[i].1 is Err {
            assert forall|i: int| 0 <= i < rest.len() implies (#[trigger] rest[i]).0 != k
                || rest[i].1 is Err by {
                assert(rest[i] == reads[i]);
            }
            assert(reads[reads.len() - 1].0 != k || reads[reads.len() - 1].1 is Err);
        }
    }
}

/// A change of a policy waits for work on the file of the workspace that the text finds: reading it,
/// deleting it, or saving the patched policy. A stand-in is never saved.
pub proof fn lemma_policy_changes_begin_with_the_file(
    state: DaemonState,
    workspace: &str,
    canonical: Option<&str>,
    change: PolicyChange,
    found: Option<&WorkspaceState>,
    r: PolicyStage,
)
    requires
        call_ensures(DaemonState::resolve_workspace, (&state, workspace, canonical), found),
        call_ensures(PolicyStage::begin, (&state, workspace, canonical, change), r),
    ensures
        found is None ==> (r matches PolicyStage::Done(e) && is_error_of(
            e,
            ErrorCode::WorkspaceNotFound,
        )),
        found matches Some(w) ==> match change {
            PolicyChange::Reload => r matches PolicyStage::LoadFile { ws_id } && ws_id@ == w.ws_id@,
            PolicyChange::Reset => r matches PolicyStage::DeleteFile { ws_id } && ws_id@
                == w.ws_id@,
            PolicyChange::Patch { auto_cleanup, auto_cleanup_keep } => {
                &&& w.policy_failsafe ==> (r matches PolicyStage::Done(e) && is_error_of(
                    e,
                    ErrorCode::InternalError,
                ))
                &&& !w.policy_failsafe ==> (r matches PolicyStage::SaveFile { ws_id, policy } && {
                    &&& ws_id@ == w.ws_id@
                    &&& auto_cleanup matches PolicyFieldOp::SetTo(b) ==> policy.auto_cleanup
                        == Some(b)
                    &&& auto_cleanup is Unchanged ==> policy.auto_cleanup
                        == w.policy.auto_cleanup
                    &&& auto_cleanup_keep matches PolicyFieldOp::SetTo(k)
                        ==> policy@.auto_cleanup_keep == Some(k@)
                    &&& auto_cleanup_keep is Unchanged ==> policy@.auto_cleanup_keep
                        == w.policy@.auto_cleanup_keep
                })
            },
        },
{
}

/// A change of a policy ends as its work on the file did: memory has what was saved, nothing where
/// the file was deleted, and what it had where the work failed.
pub proof fn lemma_policy_changes_follow_the_file(
    stage: PolicyStage,
    state: &mut DaemonState,
    event: PolicyEvent,
    next: PolicyStage,
)
    requires
        old(state).registry@.keyed(),
        call_ensures(PolicyStage::advance, (stage, state, event), next),
    ensures
        rest_stays(*final(state), *old(state)),
        (stage, event) matches (
            PolicyStage::SaveFile { ws_id, policy },
            PolicyEvent::Saved(saved),
        ) ==> (next matches PolicyStage::Done(r) && match saved {
            Ok(_) => tells_policy(r, ws_id@, policy@, old(state).config) && policy_set(
                old(state).registry@,
                final(state).registry@,
                ws_id@,
                policy@,
                old(state).registry@.by_id[ws_id@].policy_failsafe,
            ),
            Err(_) => final(state).registry@ == old(state).registry@ && is_error_of(
                r,
                ErrorCode::InternalError,
            ),
        }),
        (stage, event) matches (
            PolicyStage::DeleteFile { ws_id },
            PolicyEvent::Deleted(deleted),
        ) ==> (next matches PolicyStage::Done(r) && match deleted {
            Ok(_) => {
                let none = crate::policy::PolicyView {
                    auto_cleanup: None,
                    auto_cleanup_keep: None,
                };
                tells_policy(r, ws_id@, none, old(state).config) && policy_set(
                    old(state).registry@,
                    final(state).registry@,
                    ws_id@,
                    none,
                    false,
                )
            },
            Err(_) => final(state).registry@ == old(state).registry@ && is_error_of(
                r,
                ErrorCode::InternalError,
            ),
        }),
        (stage, event) matches (PolicyStage::LoadFile { ws_id }, PolicyEvent::Loaded(outcome)) ==> {
            &&& next matches PolicyStage::Done(Response::ReloadConfigOk { config, file })
            &&& repeats(config, old(state).config)
            &&& file is None
            &&& outcome matches Ok(LoadPolicyOutcome::Loaded(p)) ==> policy_set(
                old(state).registry@,
                final(state).registry@,
                ws_id@,
                p@,
                false,
            )
            &&& outcome is Err ==> final(state).registry@ == old(state).registry@
        },
{
    let a = old(state).registry@;
    let b = final(state).registry@;
    let id = match stage {
        PolicyStage::SaveFile { ws_id, .. } => ws_id@,
        PolicyStage::DeleteFile { ws_id } => ws_id@,
        PolicyStage::LoadFile { ws_id } => ws_id@,
        _ => Seq::empty(),
    };
    if a.by_id.contains_key(id) {
        assert(a.by_id[id].ws_id == id);
    }
    if let (PolicyStage::LoadFile { ws_id }, PolicyEvent::Loaded(outcome)) = (stage, event) {
        let reads = seq![(ws_id@, outcome)];
        assert(reads.drop_last() =~= Seq::empty());
        assert(crate::state::policies_reloaded(a, reads.drop_last()) == a);
        assert(reads.last() == (ws_id@, outcome));
        if outcome is Err {
            assert(b.by_id =~= a.by_id);
        }
    }
    assert(b.by_id.remove(id) =~= a.by_id.remove(id));
    assert(b.by_id.dom() =~= a.by_id.dom());
}

/// A daemon starts without workspaces, with the configuration and the directories that it is given;
/// the index of a workspace lies in a directory of its own below that of the records.
pub proof fn lemma_new_daemons_are_empty(
    config: DaemonConfig,
    data_root: String,
    snapshots_root: String,
    state_dir: String,
    r: DaemonState,
    ws_id: &str,
    dir: String,
)
    requires
        call_ensures(DaemonState::new, (config, data_root, snapshots_root, state_dir), r),
        call_ensures(DaemonState::index_dir, (&r, ws_id), dir),
    ensures
        r.registry@.by_id.dom() == Set::<Seq<char>>::empty(),
        r.registry@.paths.dom() == Set::<Seq<char>>::empty(),
        r.config == config,
        r.data_root == data_root,
        r.snapshots_root == snapshots_root,
        r.state_dir == state_dir,
        ws_id@.len() > 0 && ws_id@[0] != '/' ==> ends_with(
            dir@,
            seq!['i', 'n', 'd', 'e', 'x', 'e', 's', '/'] + ws_id@,
        ),
        ws_id@.len() > 0 && ws_id@[0] != '/' ==> state_dir@.is_prefix_of(dir@),
{
    reveal_strlit("indexes");
    reveal_strlit("/");
    let i = "indexes"@;
    let d = crate::paths::joined_path(state_dir@, i);
    assert(i.len() == 7 && i[0] == 'i' && i[6] == 's');
    assert(d.last() == 's');
    if ws_id@.len() > 0 && ws_id@[0] != '/' {
        assert(dir@ == d + "/"@ + ws_id@);
        assert(dir@.skip(dir@.len() - 8 - ws_id@.len()) =~= seq![
            'i',
            'n',
            'd',
            'e',
            'x',
            'e',
            's',
            '/',
        ] + ws_id@);
        assert(state_dir@ =~= dir@.subrange(0, state_dir@.len() as int));
    }
}

/// A workspace that is registered with a policy has it, and one that is registered without has
/// none; either way it has the identifier, the path and the index that were given.
pub proof fn lemma_workspaces_are_registered_as_given(
    state: &mut DaemonState,
    ws_id: String,
    path: String,
    index: SnapshotIndex,
    policy: WorkspacePolicy,
    failsafe: bool,
    number: usize,
)
    requires
        call_ensures(
            DaemonState::register_workspace_with_policy,
            (state, ws_id, path, index, policy, failsafe),
            number,
        ),
    ensures
        rest_stays(*final(state), *old(state)),
        final(state).registry@.by_id.contains_key(ws_id@),
        ({
            let w = final(state).registry@.by_id[ws_id@];
            w.ws_id == ws_id@ && w.path == path@ && w.index == index@ && w.policy == policy@
                && w.policy_failsafe == failsafe
        }),
        final(state).registry@.by_id.remove(ws_id@) == old(state).registry@.by_id.remove(ws_id@),
        final(state).registry@.paths == old(state).registry@.paths.insert(
            normal_path(path@),
            ws_id@,
        ),
{
    assert(final(state).registry@.by_id.remove(ws_id@) =~= old(state).registry@.by_id.remove(
        ws_id@,
    ));
}

/// A workspace that is registered without a policy inherits everything.
pub proof fn lemma_workspaces_start_inheriting(
    state: &mut DaemonState,
    ws_id: String,
    path: String,
    index: SnapshotIndex,
    number: usize,
)
    requires
        call_ensures(DaemonState::register_workspace, (state, ws_id, path, index), number),
    ensures
        rest_stays(*final(state), *old(state)),
        final(state).registry@.by_id.contains_key(ws_id@),
        ({
            let w = final(state).registry@.by_id[ws_id@];
            w.ws_id == ws_id@ && w.path == path@ && w.index == index@
                && w.policy.auto_cleanup is None && w.policy.auto_cleanup_keep is None
                && !w.policy_failsafe
        }),
        final(state).registry@.by_id.remove(ws_id@) == old(state).registry@.by_id.remove(ws_id@),
        final(state).registry@.paths == old(state).registry@.paths.insert(
            normal_path(path@),
            ws_id@,
        ),
{
    assert(final(state).registry@.by_id.remove(ws_id@) =~= old(state).registry@.by_id.remove(
        ws_id@,
    ));
}

/// A workspace that is unregistered is gone, and nothing else is.
pub proof fn lemma_unregistered_workspaces_are_gone(state: &mut DaemonState, ws_id: &str)
    requires
        call_ensures(DaemonState::unregister_workspace, (state, ws_id), ()),
    ensures
        rest_stays(*final(state), *old(state)),
        final(state).registry@.by_id == old(state).registry@.by_id.remove(ws_id@),
        old(state).registry@.by_id.contains_key(ws_id@) ==> final(state).registry@.paths == old(state).registry@.paths.remove(normal_path(old(state).registry@.by_id[ws_id@].path)),
        !old(state).registry@.by_id.contains_key(ws_id@) ==> final(state).registry@ == old(state).registry@,
{
    if !old(state).registry@.by_id.contains_key(ws_id@) {
        assert(old(state).registry@.by_id.remove(ws_id@) =~= old(state).registry@.by_id);
    }
}

/// What is wrong with a registration is told by what was found at its path; a directory there is
/// warned of, and nothing else is.
pub proof fn lemma_causes_are_told(
    ws: WorkspaceState,
    facts: RegistrationFacts,
    r: Option<Response>,
)
    requires
        call_ensures(detached_registration_error, (&ws, &facts), r),
    ensures
        r matches Some(Response::Error { message, .. }) ==> {
            &&& facts.kind == PathKind::Absent ==> holds(
                message@,
                "the registered path no longer exists"@,
            )
            &&& facts.kind == PathKind::NotSymlink ==> holds(
                message@,
                "the registered path is no longer a workspace symlink"@,
            ) && ends_with(
                message@,
                "move or rename it before running recover to avoid data loss"@,
            )
            &&& facts.kind == PathKind::Symlink ==> holds(
                message@,
                "the registered symlink no longer points at the live workspace subvolume"@,
            )
            &&& facts.kind != PathKind::NotSymlink ==> ends_with(
                message@,
                "' to restore, then re-init"@,
            )
        },
{
    if let Some(Response::Error { code, message }) = r {
        let a = "workspace registered (ws_id="@ + ws.ws_id@ + ") but "@;
        let b = "; run 'ws-ckpt recover -w "@ + ws.path@;
        let c = "' to restore, then re-init"@;
        match facts.kind {
            PathKind::Absent => {
                let x = "the registered path no longer exists"@;
                lemma_stands(message@, a, x, b + c + ""@);
                reveal_strlit("");
                assert(message@ =~= a + x + b + c);
                assert(message@.skip((a + x + b).len() as int) =~= c);
            },
            PathKind::NotSymlink => {
                let x = "the registered path is no longer a workspace symlink"@;
                let h =
                    "\n  note: path is currently a regular directory \u{2014} move or rename it before running recover to avoid data loss"@;
                let e = "move or rename it before running recover to avoid data loss"@;
                lemma_stands(message@, a, x, b + c + h);
                reveal_strlit(
                    "\n  note: path is currently a regular directory \u{2014} move or rename it before running recover to avoid data loss",
                );
                reveal_strlit("move or rename it before running recover to avoid data loss");
                assert(message@ =~= a + x + b + c + h);
                assert(message@.skip(message@.len() - e.len()) =~= e);
            },
            PathKind::Symlink => {
                let x = "the registered symlink no longer points at the live workspace subvolume"@;
                lemma_stands(message@, a, x, b + c + ""@);
                reveal_strlit("");
                assert(message@ =~= a + x + b + c);
                assert(message@.skip((a + x + b).len() as int) =~= c);
            },
        }
    }
}

/// Policies that are read again change nothing of a workspace but its policy, and nothing of one
/// whose file could not be read or was not.
pub proof fn lemma_rereading_policies(
    state: &mut DaemonState,
    policies: Vec<(String, Result<LoadPolicyOutcome, WsCkptError>)>,
    k: Seq<char>,
)
    requires
        old(state).registry@.keyed(),
        call_ensures(DaemonState::reload_all_workspace_policies, (state, policies), ()),
    ensures
        rest_stays(*final(state), *old(state)),
        final(state).registry@.paths == old(state).registry@.paths,
        final(state).registry@.by_id.dom() == old(state).registry@.by_id.dom(),
        old(state).registry@.by_id.contains_key(k) ==> {
            let a = old(state).registry@.by_id[k];
            let b = final(state).registry@.by_id[k];
            &&& b.ws_id == a.ws_id
            &&& b.path == a.path
            &&& b.index == a.index
            &&& (forall|i: int|
                0 <= i < policies@.len() ==> (#[trigger] policies@[i]).0@ != k || policies@[i].1
                    is Err) ==> b == a
            &&& policies@.len() > 0 && policies@.last().0@ == k ==> (policies@.last().1
                matches Ok(LoadPolicyOutcome::Loaded(p)) ==> b.policy == p@ && !b.policy_failsafe)
        },
{
    let reads = crate::state::outcomes(policies@);
    assert(reads.len() == policies@.len());
    lemma_rereading(old(state).registry@, reads, k);
    if policies@.len() > 0 {
        assert(reads.last() == (policies@.last().0@, policies@.last().1));
    }
    if forall|i: int|
        0 <= i < policies@.len() ==> (#[trigger] policies@[i]).0@ != k || policies@[i].1 is Err {
        assert forall|i: int| 0 <= i < reads.len() implies (#[trigger] reads[i]).0 != k
            || reads[i].1 is Err by {
            assert(reads[i] == (policies@[i].0@, policies@[i].1));
        }
    }
}

/// A deletion that names no workspace says why it is refused: the text begins the names of
/// snapshots of more than one workspace, or that of none at all.
pub proof fn lemma_deletions_say_why_they_are_refused(
    state: DaemonState,
    snapshot: &str,
    r: Result<(String, String), Response>,
    a: Seq<char>,
    i: Seq<char>,
    b: Seq<char>,
    j: Seq<char>,
)
    requires
        call_ensures(DaemonState::delete_target, (&state, snapshot), r),
    ensures
        ({
            let by_id = state.registry@.by_id;
            &&& a != b && begins_a_name(by_id, a, i, snapshot@) && begins_a_name(
                by_id,
                b,
                j,
                snapshot@,
            ) ==> (r matches Err(Response::Error { message, .. }) && message@ == "snapshot '"@
                + snapshot@ + "' matches in multiple workspaces, please specify --workspace/-w"@)
            &&& (forall|k: Seq<char>, id: Seq<char>| !begins_a_name(by_id, k, id, snapshot@)) ==> (
            r matches Err(Response::Error { message, .. }) && message@ == "snapshot not found: "@
                + snapshot@)
        }),
{
    let by_id = state.registry@.by_id;
    let s = snapshot@;
    let hits = crate::state::workspaces_with(by_id, s);
    if a != b && begins_a_name(by_id, a, i, s) && begins_a_name(by_id, b, j, s) {
        lemma_named_somewhere(by_id, a, i, s);
        lemma_named_somewhere(by_id, b, j, s);
        if !crate::state::ambiguous_somewhere(by_id, s) {
            assert(hits.contains(a) && hits.contains(b));
            assert(hits.remove(a).contains(b));
            assert(hits.remove(a).remove(b).len() == hits.len() - 2);
        }
    }
    if forall|k: Seq<char>, id: Seq<char>| !begins_a_name(by_id, k, id, s) {
        assert forall|k: Seq<char>| #[trigger] by_id.contains_key(k) implies by_id[k].index.resolved(
            s,
        ) == Err::<Seq<char>, crate::lookup::ResolveError>(
            crate::lookup::ResolveError::NotFound,
        ) by {
            let m = by_id[k].index.matching(s);
            assert forall|id: Seq<char>| !m.contains(id) by {
                assert(!begins_a_name(by_id, k, id, s));
            }
            assert(m =~= Set::empty());
            assert(!begins_a_name(by_id, k, s, s));
        }
        assert(hits =~= Set::empty());
    }
}

/// Whether a text begins the name of a snapshot of a workspace.
pub open spec fn begins_a_name(
    by_id: Map<Seq<char>, WorkspaceView>,
    k: Seq<char>,
    id: Seq<char>,
    text: Seq<char>,
) -> bool {
    by_id.contains_key(k) && by_id[k].index.nodes.contains_key(id) && text.is_prefix_of(id)
}

proof fn lemma_named_somewhere(
    by_id: Map<Seq<char>, WorkspaceView>,
    k: Seq<char>,
    id: Seq<char>,
    text: Seq<char>,
)
    requires
        begins_a_name(by_id, k, id, text),
        crate::state::matches_are_finite(by_id, text),
    ensures
        crate::state::ambiguous_somewhere(by_id, text) || crate::state::workspaces_with(
            by_id,
            text,
        ).contains(k),
{
    let m = by_id[k].index.matching(text);
    assert(m.contains(id));
    assert(m.len() != 0) by {
        vstd::set_lib::lemma_set_empty_equivalency_len(m);
    }
}

} // verus!
