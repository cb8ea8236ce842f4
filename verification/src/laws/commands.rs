//! Promises about the command line.

use crate::cli::{
    adapter_script, after_confirmation, check_snapshot_arg, check_workspace_arg, detection,
    generate_auto_id, init_precheck, is_yes, metadata_refusal, parse_output_format, patch_request,
    request_for, resolve_workspace_arg, runtime_dir, script_failure, Command, ConfigArgs,
    ConfigPlan, Detection, OutputFormat, PluginRuntime,
};
use crate::json::json_reading;
use crate::laws::display::{holds, lemma_stands};
use crate::message::Request;
use crate::policy::PolicyFieldOp;
use crate::retention::CleanupRetention;
use crate::snapshot::Timestamp;
use crate::text::{is_white_space, signed_decimal, trim_end, trim_start, trimmed};
use crate::text_list::opt_str;
use vstd::prelude::*;

verus! {

/// Whether a workspace argument is sent as it should be: a name without separators, an absolute
/// path, and anything where the current directory is not known, letter for letter; any other
/// path behind the current directory and a slash.
pub open spec fn is_sent(sent: Seq<char>, given: Seq<char>, cwd: Option<Seq<char>>) -> bool {
    let named = !given.contains('/') && !given.contains('\\');
    let rooted = given.len() > 0 && given[0] == '/';
    &&& named || rooted || cwd is None ==> sent == given
    &&& !named && !rooted ==> (cwd matches Some(d) ==> {
        &&& sent.len() >= given.len()
        &&& sent.skip(sent.len() - given.len()) == given
        &&& d.len() == 0 ==> sent == given
        &&& d.len() > 0 ==> {
            let gap: int = if d.last() == '/' {
                0
            } else {
                1
            };
            &&& sent.len() == d.len() + gap + given.len()
            &&& sent.take(d.len() as int) == d
            &&& gap == 1 ==> sent[d.len() as int] == '/'
        }
    })
}

/// Whether an optional workspace argument is sent as it should be: none where none was given.
pub open spec fn is_opt_sent(
    sent: Option<String>,
    given: Option<String>,
    cwd: Option<Seq<char>>,
) -> bool {
    match (sent, given) {
        (Some(s), Some(g)) => is_sent(s@, g@, cwd),
        (None, None) => true,
        _ => false,
    }
}

proof fn lemma_sent(given: Seq<char>, cwd: Option<Seq<char>>)
    ensures
        is_sent(crate::cli::workspace_sent(given, cwd), given, cwd),
{
    reveal_strlit("/");
    let sent = crate::cli::workspace_sent(given, cwd);
    if cwd is Some {
        let d = cwd->0;
        assert((d + "/"@ + given).take(d.len() as int) =~= d);
        assert((d + "/"@ + given).skip(d.len() as int + 1) =~= given);
        assert((d + given).take(d.len() as int) =~= d);
        assert((d + given).skip(d.len() as int) =~= given);
    }
    assert(given.skip(0) =~= given);
}

/// A workspace argument reaches the daemon as it was given, or behind the current directory.
pub proof fn lemma_workspace_arguments_are_sent(workspace: &str, cwd: Option<&str>, r: String)
    requires
        call_ensures(resolve_workspace_arg, (workspace, cwd), r),
    ensures
        is_sent(r@, workspace@, opt_str(cwd)),
{
    lemma_sent(workspace@, opt_str(cwd));
}

/// A rollback with a preview never changes anything, and one without is never just shown. Either
/// way the target is the one that was asked for, and there is no request without a target.
pub proof fn lemma_previews_do_not_roll_back(
    c: Command,
    cwd: Option<&str>,
    auto_id: &str,
    r: Result<Request, String>,
)
    requires
        call_ensures(request_for, (c, cwd, auto_id), r),
    ensures
        c matches Command::Rollback { workspace, to, num_ancestors, preview } ==> {
            &&& r is Err <==> to is None && num_ancestors is None
            &&& r matches Ok(q) ==> (q is RollbackPreview <==> preview) && (q is Rollback
                <==> !preview)
            &&& r matches Ok(Request::Rollback { workspace: w, to: t, num_ancestors: n }) ==> is_sent(
                w@,
                workspace@,
                opt_str(cwd),
            ) && t == to && n == num_ancestors
            &&& r matches Ok(Request::RollbackPreview { workspace: w, to: t, num_ancestors: n })
                ==> is_sent(w@, workspace@, opt_str(cwd)) && t == to && n == num_ancestors
        },
{
    if let Command::Rollback { workspace, .. } = c {
        lemma_sent(workspace@, opt_str(cwd));
    }
}

/// A preview and the rollback that follows it are about the same workspace and the same target.
pub proof fn lemma_previews_show_what_would_be_rolled_back(
    workspace: String,
    to: Option<String>,
    num_ancestors: Option<u32>,
    cwd: Option<&str>,
    auto_id: &str,
    other_id: &str,
    shown: Result<Request, String>,
    done: Result<Request, String>,
)
    requires
        call_ensures(
            request_for,
            ((Command::Rollback { workspace, to, num_ancestors, preview: true }), cwd, auto_id),
            shown,
        ),
        call_ensures(
            request_for,
            ((Command::Rollback { workspace, to, num_ancestors, preview: false }), cwd, other_id),
            done,
        ),
    ensures
        shown is Ok <==> done is Ok,
        shown matches Ok(Request::RollbackPreview { workspace: v, to: s, num_ancestors: m }) ==> (
        done matches Ok(Request::Rollback { workspace: w, to: t, num_ancestors: n }) && v@ == w@
            && s == t && m == n),
        shown is Ok ==> shown->Ok_0 is RollbackPreview,
{
}

/// A checkpoint has the name that was given, by the deprecated option before the current one, and
/// one made up only where none was given. It has the message and the metadata that were given,
/// and is not pinned. Metadata that is no JSON is refused, and nothing else is.
pub proof fn lemma_checkpoints_are_asked_for_as_given(
    c: Command,
    cwd: Option<&str>,
    auto_id: &str,
    r: Result<Request, String>,
)
    requires
        call_ensures(request_for, (c, cwd, auto_id), r),
    ensures
        c matches Command::Checkpoint { workspace, snapshot, legacy_id, message, metadata } ==> {
            &&& r is Ok <==> (metadata matches Some(t) ==> json_reading(t@) is Ok)
            &&& r is Ok ==> (r matches Ok(
                Request::Checkpoint { workspace: w, id, message: m, metadata: d, pin },
            ) && {
                &&& is_sent(w@, workspace@, opt_str(cwd))
                &&& legacy_id matches Some(l) ==> id@ == l@
                &&& legacy_id is None ==> (snapshot matches Some(s) ==> id@ == s@)
                &&& legacy_id is None && snapshot is None ==> id@ == auto_id@
                &&& m == message
                &&& d == metadata
                &&& !pin
            })
        },
{
    if let Command::Checkpoint { workspace, .. } = c {
        lemma_sent(workspace@, opt_str(cwd));
    }
}

/// A deletion is forced exactly where force was asked for, and is of the snapshot and the
/// workspace that were given.
pub proof fn lemma_deletions_are_asked_for_as_given(
    c: Command,
    cwd: Option<&str>,
    auto_id: &str,
    r: Result<Request, String>,
)
    requires
        call_ensures(request_for, (c, cwd, auto_id), r),
    ensures
        c matches Command::Delete { workspace, snapshot, force } ==> (r matches Ok(
            Request::Delete { workspace: w, snapshot: s, force: f },
        ) && is_opt_sent(w, workspace, opt_str(cwd)) && s == snapshot && f == force),
{
    if let Command::Delete { workspace, .. } = c {
        if workspace is Some {
            lemma_sent(workspace->0@, opt_str(cwd));
        }
    }
}

/// Every other command asks for what it is named after, with the arguments as they were given,
/// and is never refused.
pub proof fn lemma_other_commands_are_asked_for_as_given(
    c: Command,
    cwd: Option<&str>,
    auto_id: &str,
    r: Result<Request, String>,
)
    requires
        call_ensures(request_for, (c, cwd, auto_id), r),
    ensures
        c matches Command::Init { workspace } ==> (r matches Ok(Request::Init { workspace: w })
            && is_sent(w@, workspace@, opt_str(cwd))),
        c matches Command::List { workspace, format } ==> (r matches Ok(
            Request::List { workspace: w, format: f },
        ) && is_opt_sent(w, workspace, opt_str(cwd)) && f == Some(format)),
        c matches Command::Diff { workspace, from, to } ==> (r matches Ok(
            Request::Diff { workspace: w, from: f, to: t },
        ) && is_sent(w@, workspace@, opt_str(cwd)) && f == from && t == to),
        c matches Command::Status { workspace, .. } ==> (r matches Ok(
            Request::Status { workspace: w },
        ) && is_opt_sent(w, workspace, opt_str(cwd))),
        c matches Command::Cleanup { workspace, keep } ==> (r matches Ok(
            Request::Cleanup { workspace: w, keep: k },
        ) && is_sent(w@, workspace@, opt_str(cwd)) && k == Some(keep)),
        c is Reload ==> (r matches Ok(q) && q is ReloadConfig),
{
    match c {
        Command::Init { workspace } => lemma_sent(workspace@, opt_str(cwd)),
        Command::Diff { workspace, .. } => lemma_sent(workspace@, opt_str(cwd)),
        Command::Cleanup { workspace, .. } => lemma_sent(workspace@, opt_str(cwd)),
        Command::List { workspace, .. } => if workspace is Some {
            lemma_sent(workspace->0@, opt_str(cwd));
        },
        Command::Status { workspace, .. } => if workspace is Some {
            lemma_sent(workspace->0@, opt_str(cwd));
        },
        _ => {},
    }
}

proof fn lemma_trim_start_is_empty(s: Seq<char>)
    ensures
        trim_start(s).len() == 0 <==> (forall|i: int|
            0 <= i < s.len() ==> is_white_space(#[trigger] s[i])),
        trim_start(s).len() > 0 ==> !is_white_space(trim_start(s)[0]),
    decreases s.len(),
{
    if s.len() > 0 && is_white_space(s[0]) {
        let t = s.drop_first();
        lemma_trim_start_is_empty(t);
        assert forall|i: int|
            (forall|j: int| 0 <= j < t.len() ==> is_white_space(#[trigger] t[j])) && 0 <= i
                < s.len() implies is_white_space(#[trigger] s[i]) by {
            if i > 0 {
                assert(t[i - 1] == s[i]);
            }
        }
        assert forall|j: int|
            (forall|i: int| 0 <= i < s.len() ==> is_white_space(#[trigger] s[i])) && 0 <= j
                < t.len() implies is_white_space(#[trigger] t[j]) by {
            assert(t[j] == s[j + 1]);
        }
    }
}

proof fn lemma_trim_end_keeps(s: Seq<char>)
    requires
        s.len() > 0,
        !is_white_space(s[0]),
    ensures
        trim_end(s).len() > 0,
    decreases s.len(),
{
    if is_white_space(s.last()) {
        assert(s.len() > 1);
        assert(s.drop_last()[0] == s[0]);
        lemma_trim_end_keeps(s.drop_last());
    }
}

/// A text is empty without its outer white space exactly where there is nothing else in it.
pub proof fn lemma_blank(s: Seq<char>)
    ensures
        trimmed(s).len() == 0 <==> (forall|i: int|
            0 <= i < s.len() ==> is_white_space(#[trigger] s[i])),
{
    lemma_trim_start_is_empty(s);
    if trim_start(s).len() > 0 {
        lemma_trim_end_keeps(trim_start(s));
    } else {
        assert(trim_end(trim_start(s)).len() == 0);
    }
}

/// A workspace argument is taken, unchanged, exactly where something other than white space is
/// in it.
pub proof fn lemma_blank_workspaces_are_refused(s: String, r: Result<String, &'static str>)
    requires
        call_ensures(check_workspace_arg, (s,), r),
    ensures
        r is Err <==> (forall|i: int| 0 <= i < s@.len() ==> is_white_space(#[trigger] s@[i])),
        r matches Ok(t) ==> t == s,
{
    lemma_blank(s@);
}

/// A snapshot argument that is taken is unchanged, not blank, and leads to no other directory.
pub proof fn lemma_snapshot_arguments_stay_inside(s: String, r: Result<String, &'static str>)
    requires
        call_ensures(check_snapshot_arg, (s,), r),
    ensures
        r matches Ok(t) ==> {
            &&& t == s
            &&& exists|i: int| 0 <= i < s@.len() && !is_white_space(#[trigger] s@[i])
            &&& !s@.contains('/')
            &&& !s@.contains('\\')
            &&& s@ != seq!['.']
            &&& s@ != seq!['.', '.']
        },
        s@.contains('/') || s@.contains('\\') || s@ == seq!['.'] || s@ == seq!['.', '.']
            ==> r is Err,
        (forall|i: int| 0 <= i < s@.len() ==> is_white_space(#[trigger] s@[i])) ==> r is Err,
        r is Err ==> s@.contains('/') || s@.contains('\\') || s@ == seq!['.'] || s@ == seq![
            '.',
            '.',
        ] || (forall|i: int| 0 <= i < s@.len() ==> is_white_space(#[trigger] s@[i])),
{
    reveal_strlit(".");
    reveal_strlit("..");
    assert("."@ =~= seq!['.']);
    assert(".."@ =~= seq!['.', '.']);
    lemma_blank(s@);
}

/// The two output formats have different names, and no other name is taken.
pub proof fn lemma_formats_have_names(s: &str, r: Result<OutputFormat, String>)
    requires
        call_ensures(parse_output_format, (s,), r),
    ensures
        r matches Ok(f) && f is Text <==> s@ == seq!['t', 'e', 'x', 't'],
        r matches Ok(f) && f is Json <==> s@ == seq!['j', 's', 'o', 'n'],
{
    reveal_strlit("text");
    reveal_strlit("json");
    assert("text"@ =~= seq!['t', 'e', 'x', 't']);
    assert("json"@ =~= seq!['j', 's', 'o', 'n']);
    assert("text"@[0] != "json"@[0]);
}

/// Metadata is refused exactly where it could not be read.
pub proof fn lemma_readable_metadata_is_taken(
    reading: Result<String, String>,
    r: Option<String>,
)
    requires
        call_ensures(metadata_refusal, (&reading,), r),
    ensures
        r is Some <==> reading is Err,
        r matches Some(m) ==> m@.len() >= reading->Err_0@.len() && m@.skip(
            m@.len() - reading->Err_0@.len(),
        ) == reading->Err_0@,
{
    if let Err(e) = reading {
        let p = "invalid JSON in --metadata: "@;
        assert((p + e@).skip(p.len() as int) =~= e@);
    }
}

/// Only a path that is certainly absent is refused before it is initialized.
pub proof fn lemma_doubtful_paths_are_tried(workspace: &str, certainly_absent: bool, r: Option<
    String,
>)
    requires
        call_ensures(init_precheck, (workspace, certainly_absent), r),
    ensures
        r is Some <==> certainly_absent,
        r matches Some(m) ==> m@.len() >= workspace@.len() && m@.skip(
            m@.len() - workspace@.len(),
        ) == workspace@,
{
    let p = "path does not exist: "@;
    assert((p + workspace@).skip(p.len() as int) =~= workspace@);
}

/// Identifiers made up at times that are written alike are alike, and all begin alike.
pub proof fn lemma_made_up_identifiers(now: Timestamp, r: String)
    requires
        call_ensures(generate_auto_id, (&now,), r),
    ensures
        r@.len() >= 5,
        r@.take(5) == seq!['c', 'k', 'p', 't', '-'],
        r@.skip(5) == crate::calendar::compact_stamp(now@.0, now@.1),
{
    reveal_strlit("ckpt-");
    let t = crate::calendar::compact_stamp(now@.0, now@.1);
    assert(r@.take(5) =~= seq!['c', 'k', 'p', 't', '-']);
    assert(r@.skip(5) =~= t);
}

/// A change of settings has a scope, and so has a reset: for the whole daemon nothing is reset,
/// and for a workspace only what a workspace can have is changed. What is changed is what was
/// mentioned, with the values that were given.
pub proof fn lemma_settings_change_as_mentioned(a: ConfigArgs, r: Result<ConfigPlan, String>)
    requires
        call_ensures(ConfigArgs::plan, (a,), r),
    ensures
        r matches Ok(ConfigPlan::UpdateGlobal(u)) ==> {
            &&& a.global && !a.reset
            &&& u.health_check_interval == a.health_check_interval
            &&& u.img_size == a.img_size
            &&& u.img_max_percent == a.img_max_percent
            &&& u.auto_cleanup_keep == a.auto_cleanup_keep
            &&& u.auto_cleanup_interval_secs == a.auto_cleanup_interval
            &&& a.enable_auto_cleanup ==> u.auto_cleanup == Some(true)
            &&& !a.enable_auto_cleanup && a.disable_auto_cleanup ==> u.auto_cleanup == Some(false)
            &&& !a.enable_auto_cleanup && !a.disable_auto_cleanup ==> u.auto_cleanup is None
        },
        r matches Ok(
            ConfigPlan::UpdateWorkspace { workspace, auto_cleanup, auto_cleanup_keep },
        ) ==> {
            &&& !a.global && !a.reset && a.workspace == Some(workspace)
            &&& auto_cleanup_keep == a.auto_cleanup_keep
            &&& a.enable_auto_cleanup ==> auto_cleanup == Some(true)
            &&& !a.enable_auto_cleanup && a.disable_auto_cleanup ==> auto_cleanup == Some(false)
            &&& !a.enable_auto_cleanup && !a.disable_auto_cleanup ==> auto_cleanup is None
            &&& a.health_check_interval is None && a.img_size is None && a.img_max_percent is None
                && a.auto_cleanup_interval is None
        },
        r matches Ok(ConfigPlan::ResetWorkspace { workspace }) ==> a.reset && !a.global
            && a.workspace == Some(workspace),
        r matches Ok(ConfigPlan::ViewWorkspace { workspace }) ==> !a.reset && !a.global
            && a.workspace == Some(workspace),
        r matches Ok(p) ==> (p is ViewGlobal ==> a.global && !a.reset) && (p is Overview
            ==> !a.global && a.workspace is None && !a.reset),
        a.global && a.reset ==> r is Err,
        a.reset && a.workspace is None ==> r is Err,
        ({
            let mentioned = a.health_check_interval is Some || a.img_size is Some
                || a.img_max_percent is Some || a.auto_cleanup_keep is Some
                || a.auto_cleanup_interval is Some || a.enable_auto_cleanup
                || a.disable_auto_cleanup;
            let daemon_wide = a.health_check_interval is Some || a.img_size is Some
                || a.img_max_percent is Some || a.auto_cleanup_interval is Some;
            &&& a.global && !a.reset ==> (r matches Ok(p) && (p is UpdateGlobal <==> mentioned) && (
            p is ViewGlobal <==> !mentioned))
            &&& !a.global && a.workspace is None ==> (r is Ok <==> !a.reset && !mentioned)
            &&& !a.global && a.workspace is Some && a.reset ==> (r matches Ok(p)
                && p is ResetWorkspace)
            &&& !a.global && a.workspace is Some && !a.reset ==> (r is Ok <==> !daemon_wide)
            &&& !a.global && a.workspace is Some && !a.reset && r is Ok ==> (
            r->Ok_0 is UpdateWorkspace <==> mentioned) && (r->Ok_0 is ViewWorkspace
                <==> !mentioned)
        }),
{
}

/// A patch sets what was mentioned to the value that was given, and leaves the rest unchanged.
pub proof fn lemma_patches_set_what_was_mentioned(
    workspace: String,
    auto_cleanup: Option<bool>,
    keep: Option<CleanupRetention>,
    r: Request,
)
    requires
        call_ensures(patch_request, (workspace, auto_cleanup, keep), r),
    ensures
        r matches Request::PatchWorkspacePolicy {
            workspace: w,
            auto_cleanup: a,
            auto_cleanup_keep: k,
        } && {
            &&& w == workspace
            &&& auto_cleanup matches Some(b) ==> a == PolicyFieldOp::SetTo(b)
            &&& auto_cleanup is None ==> a == PolicyFieldOp::<bool>::Unchanged
            &&& keep matches Some(n) ==> k == PolicyFieldOp::SetTo(n)
            &&& keep is None ==> k == PolicyFieldOp::<CleanupRetention>::Unchanged
        },
{
}

/// Only a `y`, in either case, agrees.
pub proof fn lemma_yes_is_yes(line: &str, r: bool)
    requires
        call_ensures(is_yes, (line,), r),
    ensures
        r <==> trimmed(line@) == seq!['y'] || trimmed(line@) == seq!['Y'],
{
    reveal_strlit("y");
    reveal_strlit("Y");
    assert("y"@ =~= seq!['y']);
    assert("Y"@ =~= seq!['Y']);
}

/// After a question nothing is sent without a yes. With one, the deletion is sent again, of the
/// same snapshot in the same workspace, and now forced; no other request is repeated.
pub proof fn lemma_only_a_yes_deletes(
    request: Request,
    line: &str,
    yes: bool,
    r: Result<Option<Request>, String>,
)
    requires
        call_ensures(is_yes, (line,), yes),
        call_ensures(after_confirmation, (&request, line), r),
    ensures
        !yes ==> (r matches Ok(q) && q is None),
        yes && request is Delete ==> (r matches Ok(Some(_))),
        yes && !(request is Delete) ==> r is Err,
        r matches Ok(Some(q)) ==> yes && (request matches Request::Delete { workspace, snapshot, .. }
            && q == (Request::Delete { workspace, snapshot, force: true })),
{
}

/// Only exit code 1 of a detection script leads to an installation, and only 0 says that the
/// plugin is there.
pub proof fn lemma_detection_by_exit_code(runtime: PluginRuntime, code: i32, r: Detection)
    requires
        call_ensures(detection, (runtime, code), r),
    ensures
        r is Installed <==> code == 0,
        r is NotInstalled <==> code == 1,
        r is Refused <==> code != 0 && code != 1,
{
}

/// The runtimes have directories of their own, and a script's path names its runtime and action:
/// scripts of different runtimes or different actions are different.
pub proof fn lemma_scripts_are_apart(
    a: PluginRuntime,
    b: PluginRuntime,
    action: &str,
    dir: &'static str,
    other: &'static str,
    path: String,
)
    requires
        call_ensures(runtime_dir, (a,), dir),
        call_ensures(runtime_dir, (b,), other),
        call_ensures(adapter_script, (a, action), path),
    ensures
        dir@ == other@ <==> a == b,
        a is Hermes ==> dir@ == seq!['h', 'e', 'r', 'm', 'e', 's'],
        a is Openclaw ==> dir@ == seq!['o', 'p', 'e', 'n', 'c', 'l', 'a', 'w'],
        path@ == "/usr/share/anolisa/adapters/ws-ckpt/"@ + dir@ + "/"@ + action@ + "-"@ + dir@
            + ".sh"@,
{
    reveal_strlit("openclaw");
    reveal_strlit("hermes");
    assert("hermes"@ =~= seq!['h', 'e', 'r', 'm', 'e', 's']);
    assert("openclaw"@ =~= seq!['o', 'p', 'e', 'n', 'c', 'l', 'a', 'w']);
    assert("openclaw"@.len() != "hermes"@.len());
}

/// The message about a failed script says whether it was to install or to uninstall.
pub proof fn lemma_script_failures_say_what_failed(
    install: bool,
    runtime: PluginRuntime,
    code: i32,
    r: String,
)
    requires
        call_ensures(script_failure, (install, runtime, code), r),
    ensures
        r@.len() > 0,
        r@[0] == (if install {
            'i'
        } else {
            'u'
        }),
{
    reveal_strlit("install");
    reveal_strlit("uninstall");
}

/// What is said of a plugin names its runtime, and of a script that failed its exit code.
pub proof fn lemma_plugins_are_named(
    install: bool,
    runtime: PluginRuntime,
    code: i32,
    dir: &'static str,
    r: Detection,
    f: String,
)
    requires
        call_ensures(runtime_dir, (runtime,), dir),
        call_ensures(detection, (runtime, code), r),
        call_ensures(script_failure, (install, runtime, code), f),
    ensures
        ({
            let label = match runtime {
                PluginRuntime::Openclaw => "Openclaw"@,
                PluginRuntime::Hermes => "Hermes"@,
            };
            &&& r matches Detection::Installed(m) ==> holds(m@, dir@)
            &&& r matches Detection::Refused(m) ==> holds(m@, label)
            &&& r matches Detection::Refused(m) ==> (code != 2 ==> holds(
                m@,
                signed_decimal(code as int),
            ))
            &&& holds(f@, label)
            &&& holds(f@, signed_decimal(code as int))
        }),
{
    let label = match runtime {
        PluginRuntime::Openclaw => "Openclaw"@,
        PluginRuntime::Hermes => "Hermes"@,
    };
    let n = signed_decimal(code as int);
    match r {
        Detection::Installed(m) => {
            lemma_stands(m@, seq![], dir@, " plugin already installed"@);
        },
        Detection::Refused(m) => {
            if code == 2 {
                lemma_stands(m@, "missing prerequisites for "@, label, seq![]);
            } else {
                lemma_stands(m@, "detect failed for "@, label, " (exit "@ + n + ")"@);
                lemma_stands(m@, "detect failed for "@ + label + " (exit "@, n, ")"@);
            }
        },
        _ => {},
    }
    let w = if install {
        "install"@
    } else {
        "uninstall"@
    };
    lemma_stands(f@, w + " failed for "@, label, " (exit "@ + n + ")"@);
    lemma_stands(f@, w + " failed for "@ + label + " (exit "@, n, ")"@);
}

} // verus!
