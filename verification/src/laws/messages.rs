//! Promises about what is said: each refusal names its reason, and each notice what it is about.

use crate::cli::{ConfigArgs, ConfigPlan};
use crate::guarded::{
    after_generation, after_inspection, after_probe, after_quiescence, Admission, GuardedRequest,
    NextMove,
};
use crate::index::SnapshotIndex;
use crate::laws::display::{ends_with, holds, lemma_stands, stands_at};
use crate::lifecycle::{
    after_bucket_probe, after_check, after_mount_check, after_resolution, after_tool_check,
    begin_init, CheckedMove, DeletePlan, Found, Resolution,
};
use crate::message::{ErrorCode, Response, WorkspaceInfo};
use crate::pages::CursorInput;
use crate::recovery::{ask_batch, ask_single, RecoverEvent, RecoverStage};
use crate::registry::WorkspaceState;
use crate::render::{
    line_views, show_advisory, show_diff, show_global_config, show_list, show_overview,
    show_response, show_rollback_preview, show_status, Line, Shown,
};
use crate::settings::{report_update, ReloadReply, UpdateReport};
use crate::snapshot::{GuardedCheckpointOutcomeV2, WorkspaceGenerationTokenV2};
use crate::state::{plan_patch, DaemonState, RegistrationFacts};
use crate::text_list::texts;
use vstd::prelude::*;

verus! {

/// Whether a response is an error with a message that ends with a text.
pub open spec fn says_last(r: Response, t: Seq<char>) -> bool {
    r matches Response::Error { message, .. } && ends_with(message@, t)
}

/// Whether a response is an error, or a rejection, with that message.
pub open spec fn says(r: Response, t: Seq<char>) -> bool {
    match r {
        Response::Error { message, .. } => message@ == t,
        Response::GuardedCheckpointV2Rejected { message, .. } => message@ == t,
        _ => false,
    }
}

/// A refused change of settings names the option that is out of place.
pub proof fn lemma_refused_settings_are_named(a: ConfigArgs, r: Result<ConfigPlan, String>)
    requires
        call_ensures(ConfigArgs::plan, (a,), r),
    ensures
        r matches Err(e) ==> {
            &&& a.global ==> e@ == "--reset is only valid with -w/--workspace"@
            &&& !a.global && a.workspace is None ==> e@
                == "specify -g (global) or -w <ws> (per-workspace) to make changes"@
            &&& !a.global && a.workspace is Some ==> if a.auto_cleanup_interval is Some {
                e@
                    == "--auto-cleanup-interval is global-only; use `-g` (interval is daemon-wide)"@
            } else if a.health_check_interval is Some {
                e@ == "--health-check-interval is global-only; use `-g`"@
            } else if a.img_size is Some {
                e@ == "--img-size is global-only; use `-g`"@
            } else {
                e@ == "--img-max-percent is global-only; use `-g`"@
            }
        },
{
}

/// A path that cannot be initialized is named, with what stands against it.
pub proof fn lemma_refused_paths_are_named(
    state: DaemonState,
    workspace: &str,
    path: &str,
    resolution: Resolution,
    found: Found,
    link: Option<&str>,
    mounted: bool,
    a: Result<String, Response>,
    b: CheckedMove,
    c: Option<Response>,
)
    requires
        call_ensures(after_resolution, (workspace, resolution), a),
        call_ensures(after_check, (&state, path, found, link), b),
        call_ensures(after_mount_check, (path, mounted), c),
    ensures
        a matches Err(Response::Error { message, .. }) ==> (match resolution {
            Resolution::NotFound => holds(message@, workspace@),
            Resolution::Failed(e) => ends_with(message@, e@) && holds(message@, workspace@),
            Resolution::NotText(shown) => ends_with(message@, shown@),
            Resolution::Resolved(_) => message@
                == "root '/' is not a supported workspace; use a specific subdirectory"@,
        }),
        found == Found::Unreadable ==> (b matches CheckedMove::Reply(e) && says(
            e,
            "cannot stat path: "@ + path@,
        )),
        found == Found::NotDirectory ==> (b matches CheckedMove::Reply(e) && says(
            e,
            "not a directory: "@ + path@,
        )),
        c matches Some(Response::Error { message, .. }) ==> holds(message@, path@),
{
    if let Err(Response::Error { code, message }) = a {
        match resolution {
            Resolution::NotFound => {
                lemma_stands(
                    message@,
                    "path does not exist in the daemon's mount namespace: "@,
                    workspace@,
                    ". In a sidecar deployment the workspace must live on a volume shared with the daemon container."@,
                );
            },
            Resolution::Failed(e) => {
                let p = "cannot resolve workspace path "@;
                lemma_stands(message@, p, workspace@, ": "@ + e@);
                let q = p + workspace@ + ": "@;
                assert((q + e@).skip(q.len() as int) =~= e@);
            },
            Resolution::NotText(shown) => {
                let p = "resolved path is not valid UTF-8: "@;
                assert((p + shown@).skip(p.len() as int) =~= shown@);
            },
            Resolution::Resolved(_) => {},
        }
    }
    if let Some(Response::Error { code, message }) = c {
        lemma_stands(
            message@,
            "workspace root is an active mount point: "@,
            path@,
            "; initialize a subdirectory of the mount instead, or unmount it first and re-run"@,
        );
    }
}

/// The other refusals of an initialization say what is missing.
pub proof fn lemma_refused_initializations_say_why(
    workspace: &str,
    state: DaemonState,
    path: &str,
    bucket: bool,
    tool: bool,
    a: Result<String, Response>,
    b: Option<Response>,
    c: Option<Response>,
)
    requires
        call_ensures(begin_init, (workspace,), a),
        call_ensures(after_bucket_probe, (&state, path, bucket), b),
        call_ensures(after_tool_check, (tool,), c),
    ensures
        a matches Err(e) ==> says(e, "workspace path is empty"@),
        b matches Some(e) ==> says(
            e,
            "path is inside mount_path ("@ + state.config.mount_path@ + "): "@ + path@,
        ),
        c matches Some(e) ==> says(e, "rsync is not installed or not in PATH"@),
{
}

/// A pinned snapshot says how to delete it all the same; a text that finds none is repeated.
pub proof fn lemma_refused_deletions_say_why(
    state: DaemonState,
    workspace: &str,
    canonical: Option<&str>,
    facts: RegistrationFacts,
    text: &str,
    force: bool,
    r: Result<DeletePlan, Response>,
)
    requires
        call_ensures(
            DaemonState::plan_delete,
            (&state, workspace, canonical, &facts, text, force),
            r,
        ),
    ensures
        r matches Err(Response::Error { code, message }) ==> {
            &&& code == ErrorCode::ConfirmationRequired ==> message@
                == "Snapshot is pinned, use --force to confirm deletion"@
            &&& code == ErrorCode::SnapshotNotFound ==> holds(message@, text@)
            &&& code == ErrorCode::WorkspaceNotFound ==> message@ == "workspace not found: "@
                + workspace@
        },
{
    if let Err(Response::Error { code, message }) = r {
        if code == ErrorCode::SnapshotNotFound {
            if message@ == "snapshot not found: "@ + text@ {
                lemma_stands(message@, "snapshot not found: "@, text@, seq![]);
            } else {
                let w = crate::state::resolved_workspace(
                    state.registry@,
                    workspace@,
                    crate::text_list::opt_str(canonical),
                )->0;
                let n = match w.index.resolved(text@) {
                    Err(crate::lookup::ResolveError::Ambiguous(n)) => n,
                    _ => 0,
                };
                lemma_stands(
                    message@,
                    "ambiguous snapshot prefix '"@,
                    text@,
                    "': "@ + crate::text::decimal(n as nat) + " matches"@,
                );
            }
        }
    }
}

/// A refused page says whether its limit or its cursor is wrong.
pub proof fn lemma_refused_pages_say_why(
    state: DaemonState,
    workspace: Option<&str>,
    canonical: Option<&str>,
    facts: RegistrationFacts,
    limit: u32,
    cursor: CursorInput,
    r: Response,
)
    requires
        call_ensures(
            DaemonState::list_page,
            (&state, workspace, canonical, &facts, limit, cursor),
            r,
        ),
    ensures
        r matches Response::Error { code, message } ==> {
            &&& code == ErrorCode::InvalidListRequest ==> message@
                == "list page limit must be between 1 and 1000"@
            &&& code == ErrorCode::InvalidListCursor ==> message@
                == "invalid list cursor or workspace scope mismatch"@
        },
{
}

/// A rejected checkpoint says what it was rejected for.
pub proof fn lemma_rejected_checkpoints_say_why(
    index: SnapshotIndex,
    req: GuardedRequest,
    uid: u32,
    generation: Result<WorkspaceGenerationTokenV2, String>,
    a: Result<(), Response>,
    b: Result<(), Response>,
    c: Result<SnapshotIndex, Response>,
)
    requires
        call_ensures(after_probe, (false,), a),
        call_ensures(after_quiescence, (false,), b),
        call_ensures(after_generation, (&index, &req, uid, generation), c),
    ensures
        a matches Err(e) && says(
            e,
            "registered workspace path no longer resolves to the live subvolume"@,
        ),
        b matches Err(e) && says(
            e,
            "workspace has active write operations; retry after it becomes quiescent"@,
        ),
        generation matches Err(e) ==> (c matches Err(x) && says(
            x,
            "failed to read live workspace generation: "@ + e@,
        )),
        generation matches Ok(g) ==> (g@ != req.expected_generation@ ==> (c matches Err(x) && says(
            x,
            "workspace generation no longer matches the guarded request"@,
        ))),
{
}

/// A skipped checkpoint says that the workspace is empty.
pub proof fn lemma_skipped_checkpoints_say_why(
    next: SnapshotIndex,
    req: GuardedRequest,
    a: Admission,
    r: NextMove,
)
    requires
        call_ensures(after_inspection, (next, &req, &a, Ok(true)), r),
    ensures
        r matches NextMove::SaveSkipped { evidence, .. } && (evidence.outcome
            matches GuardedCheckpointOutcomeV2::Skipped { reason } && reason@
            == "Empty workspace, no snapshot created."@),
{
}

/// A stand-in policy says how to get the real one back.
pub proof fn lemma_stand_ins_say_what_to_do(
    ws: WorkspaceState,
    r: Result<crate::policy::WorkspacePolicy, Response>,
)
    requires
        ws.policy_failsafe,
        call_ensures(
            plan_patch,
            (
                &ws,
                crate::policy::PolicyFieldOp::<bool>::Unchanged,
                crate::policy::PolicyFieldOp::<crate::retention::CleanupRetention>::Unchanged,
            ),
            r,
        ),
    ensures
        r matches Err(e) && says(
            e,
            "workspace "@ + ws.ws_id@
                + " has a fail-safe policy in memory (real policy.toml was unreadable at startup). Patching now would overwrite the on-disk policy with the fail-safe value. Run `ws-ckpt reload` to re-read the file, or `ws-ckpt config -w "@
                + ws.ws_id@
                + " --reset` to discard the on-disk override and restart from inherit-global."@,
        ),
{
}

/// A health advisory ends with what to do, by hand or for good.
pub proof fn lemma_advisories_say_what_to_do(
    count: u32,
    fs_warning: Option<String>,
    r: Vec<Line>,
)
    requires
        call_ensures(show_advisory, (count, &fs_warning), r),
        count > 0 || fs_warning is Some,
    ensures
        ({
            let n = r@.len() as int;
            &&& n >= 9
            &&& r@[n - 7].text@
                == "\x1b[33m  Manual cleanup:   ws-ckpt cleanup -w <workspace> --keep <N>\x1b[0m"@
            &&& r@[n - 6].text@ == "\x1b[33m  Or enable auto-cleanup for all workspaces:\x1b[0m"@
            &&& r@[n - 5].text@
                == "\x1b[33m      ws-ckpt config -g --enable-auto-cleanup \\\x1b[0m"@
            &&& r@[n - 4].text@
                == "\x1b[33m                        --auto-cleanup-keep <NUM|DURATION> \\\x1b[0m"@
            &&& r@[n - 3].text@
                == "\x1b[33m                        --auto-cleanup-interval <SECONDS>\x1b[0m"@
            &&& r@[n - 2].text@ == "\x1b[33m  Suggested values:\x1b[0m"@
            &&& r@[n - 1].text@
                == "\x1b[33m      ws-ckpt config -g --enable-auto-cleanup --auto-cleanup-keep 1000 --auto-cleanup-interval 86400\x1b[0m"@
        }),
{
    let v = line_views(r@);
    let n = r@.len() as int;
    assert(v.len() == n);
    assert(v[n - 7] == r@[n - 7]@);
    assert(v[n - 6] == r@[n - 6]@);
    assert(v[n - 5] == r@[n - 5]@);
    assert(v[n - 4] == r@[n - 4]@);
    assert(v[n - 3] == r@[n - 3]@);
    assert(v[n - 2] == r@[n - 2]@);
    assert(v[n - 1] == r@[n - 1]@);
}

/// A preview says that nothing was changed.
pub proof fn lemma_previews_say_that_nothing_changed(
    to: &str,
    changes: Vec<crate::message::DiffEntry>,
    r: Vec<Line>,
    plain: Vec<Line>,
)
    requires
        call_ensures(show_rollback_preview, (to, &changes), r),
        call_ensures(show_diff, (&changes,), plain),
    ensures
        r@[0].text@ == "\x1b[1mRollback preview (no changes applied)\x1b[0m"@,
        r@[1].text@ == "Target snapshot: "@ + to@ + "\n"@,
        r@[2].text@ == "Changes since target snapshot (rollback will revert these):"@,
        changes@.len() == 0 ==> plain@[0].text@ == "No differences found."@,
{
    let v = line_views(r@);
    assert(v.len() == r@.len());
    assert(v[0] == r@[0]@);
    assert(v[1] == r@[1]@);
    assert(v[2] == r@[2]@);
    let w = line_views(plain@);
    assert(w.len() == plain@.len());
    if changes@.len() == 0 {
        assert(w[0] == plain@[0]@);
    }
}

/// A change of settings says where it was saved, and whether the daemon has it: it was reloaded, or
/// is not running.
pub proof fn lemma_changes_say_where_they_are(
    saved: crate::config::FileConfig,
    image_settings: bool,
    reply: ReloadReply,
    shown: (&str, &str),
    r: UpdateReport,
)
    requires
        call_ensures(report_update, (&saved, image_settings, &reply, shown), r),
    ensures
        r.status@.len() >= 1,
        r.status@[0]@
            == "\x1b[32m\u{2713} Configuration saved to "@ + "/etc/ws-ckpt/config.toml"@
            + "\x1b[0m"@,
        reply is Reloaded ==> r.status@[1]@
            == "\x1b[32m\u{2713} Daemon reloaded configuration\x1b[0m"@,
        reply is Unreachable ==> r.status@[1]@
            == "\x1b[33m\u{26a0} Daemon not running, changes will take effect on next start\x1b[0m"@,
        r.status@.len() == 3 ==> r.status@[2]@
            == "\x1b[33m\u{26a0} Note: btrfs-loop image settings (img-size, img-max-percent) require daemon restart to take effect.\x1b[0m"@,
{
    let t = texts(r.status@);
    assert(t.len() == r.status@.len());
    assert(t[0] == r.status@[0]@);
    if t.len() > 1 {
        assert(t[1] == r.status@[1]@);
    }
    if t.len() > 2 {
        assert(t[2] == r.status@[2]@);
    }
}

/// A setting that the daemon did not load is an error that says where the file is.
pub proof fn lemma_unloaded_settings_say_where(
    saved: crate::config::FileConfig,
    image_settings: bool,
    reply: ReloadReply,
    shown: (&str, &str),
    r: UpdateReport,
)
    requires
        call_ensures(report_update, (&saved, image_settings, &reply, shown), r),
        reply is Reloaded,
    ensures
        r.error matches Some(m) ==> {
            &&& stands_at(m@, 0, "daemon did not load the settings written to "@)
            &&& holds(m@, "/etc/ws-ckpt/config.toml"@)
            &&& ends_with(m@, " must be on a volume shared with this CLI."@)
        },
{
    if let Some(m) = r.error {
        let f = match reply {
            ReloadReply::Reloaded { file } => file->0,
            _ => saved,
        };
        let a = "daemon did not load the settings written to "@;
        let p = "/etc/ws-ckpt/config.toml"@;
        let l = crate::text_list::join(
            crate::settings::unlanded_lines(saved, f, (shown.0@, shown.1@)),
            "\n  "@,
        );
        let b =
            "\nThe daemon reloads its own view of that path \u{2014} if it runs in a separate container or mount namespace, "@;
        let z = " must be on a volume shared with this CLI."@;
        let h = a + p + ":\n  "@ + l + b + p;
        assert(m@ == h + z);
        lemma_stands(m@, seq![], a, p + ":\n  "@ + l + b + p + z);
        lemma_stands(m@, a, p, ":\n  "@ + l + b + p + z);
        assert(m@.skip(h.len() as int) =~= z);
    }
}

/// Before snapshots are deleted by a recovery, that is said, and what is not looked after.
pub proof fn lemma_recoveries_warn(
    workspaces: Vec<WorkspaceInfo>,
    workspace: &str,
    snapshots: u32,
    batch: Vec<String>,
    single: Vec<String>,
)
    requires
        call_ensures(ask_batch, (&workspaces,), batch),
        call_ensures(ask_single, (workspace, snapshots), single),
    ensures
        batch@.last()@
            == "This will delete all snapshots and restore all workspaces to normal directories.\nWARNING: ws-ckpt does NOT check for processes with cwd inside any workspace before recover.\nAny such process will have its working directory silently invalidated \u{2014} verify yourself\n(e.g. lsof +D <ws>, or ls -l /proc/*/cwd) before confirming."@,
        single@.last()@
            == "This will delete all snapshots and restore the workspace to a normal directory.\nWARNING: ws-ckpt does NOT check for processes with cwd inside the workspace before recover.\nAny such process will have its working directory silently invalidated \u{2014} verify yourself\n(e.g. lsof +D <ws>, or ls -l /proc/*/cwd) before confirming."@,
{
    let b = texts(batch@);
    let s = texts(single@);
    assert(b.len() == batch@.len() && s.len() == single@.len());
    assert(b.last() == batch@.last()@);
    assert(s.last() == single@.last()@);
}

/// A dialogue that ends without doing anything says so.
pub proof fn lemma_idle_recoveries_say_so(
    stage: RecoverStage,
    event: RecoverEvent,
    r: (Vec<Line>, RecoverStage),
)
    requires
        call_ensures(RecoverStage::advance, (stage, event), r),
    ensures
        stage is Confirm && r.1 is Done ==> r.0@.len() == 1 && r.0@[0].text@
            == "Operation cancelled."@,
        (stage is AskAll && (r.1 matches RecoverStage::Done { success } && success)) ==> r.0@.len()
            == 1 && r.0@[0].text@ == "No workspaces to recover."@,
{
    let v = line_views(r.0@);
    assert(v.len() == r.0@.len());
    if v.len() > 0 {
        assert(v[0] == r.0@[0]@);
    }
}

/// The views of the configuration and of the daemon say what they are.
pub proof fn lemma_views_have_headings(
    report: crate::message::StatusReport,
    usage: &str,
    fc: crate::config::FileConfig,
    c: crate::config::ConfigReport,
    total: usize,
    with_override: usize,
    percent: &str,
    snapshots: Vec<crate::snapshot::SnapshotEntry>,
    dates: Vec<String>,
    offset_secs: i32,
    s: Vec<Line>,
    g: Vec<Line>,
    o: Vec<Line>,
    l: Vec<Line>,
)
    requires
        call_ensures(show_status, (&report, usage), s),
        call_ensures(show_global_config, (&fc, percent), g),
        call_ensures(show_overview, (&c, total, with_override, percent), o),
        dates@.len() == snapshots@.len(),
        call_ensures(show_list, (&snapshots, &dates, offset_secs), l),
    ensures
        s@[0].text@ == "\x1b[1mDaemon Status\x1b[0m"@,
        report.workspaces@.len() == 0 ==> s@[4].text@ == "  No workspaces registered."@,
        g@[0].text@ == "\x1b[1mDaemon Configuration\x1b[0m"@,
        ends_with(g@[1].text@, "/etc/ws-ckpt/config.toml"@),
        o@[0].text@ == "\x1b[1mDaemon Configuration\x1b[0m"@,
        ends_with(o@[1].text@, "/etc/ws-ckpt/config.toml"@),
        o@[11].text@ == "\x1b[1mWorkspaces\x1b[0m"@,
        with_override > 0 ==> o@[15].text@
            == "\nUse `ws-ckpt config -w <ws>` to inspect a specific workspace."@,
        snapshots@.len() == 0 ==> l@[0].text@ == "No snapshots found."@,
{
    let v = line_views(s@);
    assert(v.len() == s@.len());
    assert(v[0] == s@[0]@);
    assert(v[4] == s@[4]@);
    let w = line_views(g@);
    assert(w.len() == g@.len());
    assert(w[0] == g@[0]@);
    assert(w[1] == g@[1]@);
    let x = line_views(o@);
    assert(x.len() == o@.len());
    assert(x[0] == o@[0]@);
    assert(x[1] == o@[1]@);
    assert(x[11] == o@[11]@);
    if with_override > 0 {
        assert(x[15] == o@[15]@);
    }
    let p = "  Config file:             "@;
    let f = "/etc/ws-ckpt/config.toml"@;
    assert((p + f).skip(p.len() as int) =~= f);
    let y = line_views(l@);
    assert(y.len() == l@.len());
    if snapshots@.len() == 0 {
        assert(crate::pages::entry_views(snapshots@).len() == 0);
        assert(y[0] == l@[0]@);
    }
}

/// A success says what was done, and what nobody asked for is called unexpected.
pub proof fn lemma_successes_say_what_was_done(response: Response, r: Shown)
    requires
        call_ensures(show_response, (&response,), r),
    ensures
        ({
            let t = r.lines@[0].text@;
            &&& response is InitOk ==> holds(t, "Workspace initialized: "@)
            &&& response is CheckpointOk ==> holds(t, "Checkpoint created: "@)
            &&& response is RollbackOk ==> holds(t, "Rolled back workspace "@)
            &&& response is DeleteOk ==> holds(t, "Deleted: "@)
            &&& response is RecoverOk ==> holds(t, "Workspace recovered: "@)
            &&& response is ListOk || response is StatusOk || response is ConfigOk ==> t
                == "\x1b[33mUnexpected response type\x1b[0m"@
        }),
{
    let v = line_views(r.lines@);
    assert(v.len() == r.lines@.len());
    assert(v[0] == r.lines@[0]@);
    let t = r.lines@[0].text@;
    let o = "\x1b[32m\u{2713} "@;
    let z = "\x1b[0m"@;
    match response {
        Response::InitOk { ws_id } => {
            lemma_stands(t, o, "Workspace initialized: "@, ws_id@ + z);
        },
        Response::CheckpointOk { snapshot_id } => {
            lemma_stands(t, o, "Checkpoint created: "@, snapshot_id@ + z);
        },
        Response::RollbackOk { from, to } => {
            lemma_stands(
                t,
                o,
                "Rolled back workspace "@,
                from@ + " to snapshot: "@ + to@ + z,
            );
        },
        Response::DeleteOk { target } => {
            lemma_stands(t, o, "Deleted: "@, target@ + z);
        },
        Response::RecoverOk { workspace } => {
            lemma_stands(t, o, "Workspace recovered: "@, workspace@ + z);
        },
        _ => {},
    }
}

} // verus!
