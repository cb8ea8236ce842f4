//! The command line: checking arguments and turning commands into requests.

use crate::calendar::compact_stamp;
use crate::config::{joined, GlobalUpdate, Percent};
use crate::json::{json_reading, read_json};
use crate::message::Request;
use crate::paths::{is_absolute, join_path, joined_path, starts_at_root};
use crate::policy::PolicyFieldOp;
use crate::retention::CleanupRetention;
use crate::snapshot::Timestamp;
use crate::text::{
    contains_char, debug_quote, quoted_for_debugging, str_eq, trim, trimmed, push_signed,
    signed_decimal,
};
use crate::text_list::{copy_opt, opt_str, opt_text};
use vstd::prelude::*;

verus! {

/// Output format of the configuration commands.
#[derive(Clone, Copy, Debug, PartialEq, Eq, Structural)]
pub enum OutputFormat {
    Text,
    Json,
}

/// Reads an output format; anything but `text` and `json` is refused.
pub fn parse_output_format(s: &str) -> (r: Result<OutputFormat, String>)
    ensures
        match r {
            Ok(f) => s@ == match f {
                OutputFormat::Text => "text"@,
                OutputFormat::Json => "json"@,
            },
            Err(e) => s@ != "text"@ && s@ != "json"@ && e@ == "unknown --format value: "@
                + quoted_for_debugging(s@) + " (expected `text` or `json`)"@,
        },
{
    if str_eq(s, "text") {
        return Ok(OutputFormat::Text);
    }
    if str_eq(s, "json") {
        return Ok(OutputFormat::Json);
    }
    Err(unknown_format_message(debug_quote(s).as_str()))
}

/// The message about an unknown output format, which is shown quoted.
pub fn unknown_format_message(shown: &str) -> (r: String)
    ensures
        r@ == "unknown --format value: "@ + shown@ + " (expected `text` or `json`)"@,
{
    let mut m = joined("unknown --format value: ", shown);
    m.append(" (expected `text` or `json`)");
    m
}

/// Refuses a blank workspace argument.
pub fn check_workspace_arg(s: String) -> (r: Result<String, &'static str>)
    ensures
        match r {
            Ok(t) => t == s && trimmed(s@).len() > 0,
            Err(e) => trimmed(s@).len() == 0 && e@
                == "workspace argument must not be empty or whitespace"@,
        },
{
    if trim(s.as_str()).as_str().is_empty() {
        Err("workspace argument must not be empty or whitespace")
    } else {
        Ok(s)
    }
}

/// Whether a text can be the name of a single directory entry: no separators, and neither `.`
/// nor `..`.
pub open spec fn is_entry_name(s: Seq<char>) -> bool {
    !s.contains('/') && !s.contains('\\') && s != "."@ && s != ".."@
}

/// Refuses a snapshot argument that is blank or no name of a directory entry.
pub fn check_snapshot_arg(s: String) -> (r: Result<String, &'static str>)
    ensures
        match r {
            Ok(t) => t == s && trimmed(s@).len() > 0 && is_entry_name(s@),
            Err(e) => if trimmed(s@).len() == 0 {
                e@ == "snapshot id must not be empty or whitespace"@
            } else {
                !is_entry_name(s@) && e@
                    == "snapshot id must not contain path separators or be '.'/'..'"@
            },
        },
{
    if trim(s.as_str()).as_str().is_empty() {
        return Err("snapshot id must not be empty or whitespace");
    }
    if contains_char(s.as_str(), '/') || contains_char(s.as_str(), '\\') || str_eq(s.as_str(), ".")
        || str_eq(s.as_str(), "..") {
        return Err("snapshot id must not contain path separators or be '.'/'..'");
    }
    Ok(s)
}

/// A workspace argument as it is sent: an identifier and an absolute path as they are, and a
/// relative path taken from the current directory, if that is known.
pub open spec fn workspace_sent(workspace: Seq<char>, cwd: Option<Seq<char>>) -> Seq<char> {
    if (!workspace.contains('/') && !workspace.contains('\\')) || is_absolute(workspace)
        || cwd is None {
        workspace
    } else {
        joined_path(cwd->0, workspace)
    }
}

/// A workspace argument as it is sent. Symbolic links are not followed: a workspace is
/// registered by the link.
pub fn resolve_workspace_arg(workspace: &str, cwd: Option<&str>) -> (r: String)
    ensures
        r@ == workspace_sent(workspace@, opt_str(cwd)),
{
    if !contains_char(workspace, '/') && !contains_char(workspace, '\\') {
        return workspace.to_owned();
    }
    if starts_at_root(workspace) {
        return workspace.to_owned();
    }
    match cwd {
        Some(dir) => join_path(dir, workspace),
        None => workspace.to_owned(),
    }
}

/// A snapshot identifier made up from the time.
pub fn generate_auto_id(now: &Timestamp) -> (r: String)
    ensures
        r@ == "ckpt-"@ + compact_stamp(now@.0, now@.1),
{
    joined("ckpt-", now.to_stamp().as_str())
}

/// A command that is answered by one request.
#[allow(inconsistent_fields)]
pub enum Command {
    Init { workspace: String },
    Checkpoint {
        workspace: String,
        snapshot: Option<String>,
        /// The snapshot as given with the deprecated option.
        legacy_id: Option<String>,
        message: Option<String>,
        metadata: Option<String>,
    },
    Rollback {
        workspace: String,
        to: Option<String>,
        num_ancestors: Option<u32>,
        preview: bool,
    },
    Delete { workspace: Option<String>, snapshot: String, force: bool },
    List { workspace: Option<String>, format: String },
    Diff { workspace: String, from: String, to: Option<String> },
    Status { workspace: Option<String>, format: String },
    Cleanup { workspace: String, keep: u32 },
    Reload,
}

/// The snapshot identifier of a checkpoint: the deprecated option first, then the current one,
/// then one made up from the time.
pub open spec fn checkpoint_name(
    snapshot: Option<Seq<char>>,
    legacy_id: Option<Seq<char>>,
    auto_id: Seq<char>,
) -> Seq<char> {
    match legacy_id {
        Some(l) => l,
        None => match snapshot {
            Some(s) => s,
            None => auto_id,
        },
    }
}

/// An optional workspace argument as it is sent.
pub open spec fn opt_workspace_sent(
    workspace: Option<Seq<char>>,
    cwd: Option<Seq<char>>,
) -> Option<Seq<char>> {
    match workspace {
        Some(w) => Some(workspace_sent(w, cwd)),
        None => None,
    }
}

/// Whether a request, or a refusal, is what a command asks for.
pub open spec fn is_request_for(
    c: Command,
    cwd: Option<Seq<char>>,
    auto_id: Seq<char>,
    r: Result<Request, String>,
) -> bool {
    match c {
        Command::Init { workspace } => r matches Ok(Request::Init { workspace: w }) && w@
            == workspace_sent(workspace@, cwd),
        Command::Checkpoint { workspace, snapshot, legacy_id, message, metadata } => {
            if metadata is Some && json_reading(metadata->0@) is Err {
                r matches Err(e) && e@ == "invalid JSON in --metadata: "@ + json_reading(
                    metadata->0@,
                )->Err_0
            } else {
                r matches Ok(Request::Checkpoint { workspace: w, id, message: m, metadata: d, pin })
                    && w@ == workspace_sent(workspace@, cwd) && id@ == checkpoint_name(
                    opt_text(snapshot),
                    opt_text(legacy_id),
                    auto_id,
                ) && m == message && d == metadata && !pin
            }
        },
        Command::Rollback { workspace, to, num_ancestors, preview } => {
            if to is None && num_ancestors is None {
                r matches Err(e) && e@
                    == "either --snapshot/-s or --num-ancestors/-n must be specified"@
            } else if preview {
                r matches Ok(Request::RollbackPreview { workspace: w, to: t, num_ancestors: n })
                    && w@ == workspace_sent(workspace@, cwd) && t == to && n == num_ancestors
            } else {
                r matches Ok(Request::Rollback { workspace: w, to: t, num_ancestors: n }) && w@
                    == workspace_sent(workspace@, cwd) && t == to && n == num_ancestors
            }
        },
        Command::Delete { workspace, snapshot, force } => r matches Ok(
            Request::Delete { workspace: w, snapshot: s, force: f },
        ) && opt_text(w) == opt_workspace_sent(opt_text(workspace), cwd) && s == snapshot && f
            == force,
        Command::List { workspace, format } => r matches Ok(
            Request::List { workspace: w, format: f },
        ) && opt_text(w) == opt_workspace_sent(opt_text(workspace), cwd) && f == Some(format),
        Command::Diff { workspace, from, to } => r matches Ok(
            Request::Diff { workspace: w, from: f, to: t },
        ) && w@ == workspace_sent(workspace@, cwd) && f == from && t == to,
        Command::Status { workspace, .. } => r matches Ok(Request::Status { workspace: w })
            && opt_text(w) == opt_workspace_sent(opt_text(workspace), cwd),
        Command::Cleanup { workspace, keep } => r matches Ok(
            Request::Cleanup { workspace: w, keep: k },
        ) && w@ == workspace_sent(workspace@, cwd) && k == Some(keep),
        Command::Reload => r matches Ok(Request::ReloadConfig),
    }
}

fn resolve_opt(workspace: Option<String>, cwd: Option<&str>) -> (r: Option<String>)
    ensures
        opt_text(r) == opt_workspace_sent(opt_text(workspace), opt_str(cwd)),
{
    match workspace {
        Some(w) => Some(resolve_workspace_arg(w.as_str(), cwd)),
        None => None,
    }
}

/// The request that a command asks for, given the current directory, if it is known, and a
/// snapshot identifier made up from the time.
pub fn request_for(command: Command, cwd: Option<&str>, auto_id: &str) -> (r: Result<
    Request,
    String,
>)
    ensures
        is_request_for(command, opt_str(cwd), auto_id@, r),
{
    match command {
        Command::Init { workspace } => Ok(
            Request::Init { workspace: resolve_workspace_arg(workspace.as_str(), cwd) },
        ),
        Command::Checkpoint { workspace, snapshot, legacy_id, message, metadata } => {
            if let Some(text) = &metadata {
                if let Some(e) = metadata_refusal(&read_json(text.as_str())) {
                    return Err(e);
                }
            }
            let id = match legacy_id {
                Some(l) => l,
                None => match snapshot {
                    Some(s) => s,
                    None => auto_id.to_owned(),
                },
            };
            Ok(
                Request::Checkpoint {
                    workspace: resolve_workspace_arg(workspace.as_str(), cwd),
                    id,
                    message,
                    metadata,
                    pin: false,
                },
            )
        },
        Command::Rollback { workspace, to, num_ancestors, preview } => {
            if to.is_none() && num_ancestors.is_none() {
                return Err(
                    "either --snapshot/-s or --num-ancestors/-n must be specified".to_owned(),
                );
            }
            let workspace = resolve_workspace_arg(workspace.as_str(), cwd);
            if preview {
                Ok(Request::RollbackPreview { workspace, to, num_ancestors })
            } else {
                Ok(Request::Rollback { workspace, to, num_ancestors })
            }
        },
        Command::Delete { workspace, snapshot, force } => Ok(
            Request::Delete { workspace: resolve_opt(workspace, cwd), snapshot, force },
        ),
        Command::List { workspace, format } => Ok(
            Request::List { workspace: resolve_opt(workspace, cwd), format: Some(format) },
        ),
        Command::Diff { workspace, from, to } => Ok(
            Request::Diff { workspace: resolve_workspace_arg(workspace.as_str(), cwd), from, to },
        ),
        Command::Status { workspace, .. } => Ok(
            Request::Status { workspace: resolve_opt(workspace, cwd) },
        ),
        Command::Cleanup { workspace, keep } => Ok(
            Request::Cleanup {
                workspace: resolve_workspace_arg(workspace.as_str(), cwd),
                keep: Some(keep),
            },
        ),
        Command::Reload => Ok(Request::ReloadConfig),
    }
}

/// The refusal of metadata that could not be read as JSON, given what reading it gave.
pub fn metadata_refusal(reading: &Result<String, String>) -> (r: Option<String>)
    ensures
        match *reading {
            Ok(_) => r is None,
            Err(e) => r matches Some(m) && m@ == "invalid JSON in --metadata: "@ + e@,
        },
{
    match reading {
        Ok(_) => None,
        Err(e) => Some(joined("invalid JSON in --metadata: ", e.as_str())),
    }
}

/// The error about a path to initialize that plainly does not exist. Only the certain absence of
/// the path itself is conclusive: a dangling link can be initialized again, and the daemon may
/// reach what this process cannot.
pub fn init_precheck(workspace: &str, certainly_absent: bool) -> (r: Option<String>)
    ensures
        match r {
            Some(m) => certainly_absent && m@ == "path does not exist: "@ + workspace@,
            None => !certainly_absent,
        },
{
    if certainly_absent {
        Some(joined("path does not exist: ", workspace))
    } else {
        None
    }
}

/// The arguments of the configuration command.
pub struct ConfigArgs {
    pub global: bool,
    pub workspace: Option<String>,
    pub reset: bool,
    pub health_check_interval: Option<u64>,
    pub img_size: Option<u64>,
    pub img_max_percent: Option<Percent>,
    pub enable_auto_cleanup: bool,
    pub disable_auto_cleanup: bool,
    pub auto_cleanup_keep: Option<CleanupRetention>,
    pub auto_cleanup_interval: Option<u64>,
}

/// What a configuration command does.
pub enum ConfigPlan {
    ViewGlobal,
    UpdateGlobal(GlobalUpdate),
    Overview,
    ViewWorkspace { workspace: String },
    ResetWorkspace { workspace: String },
    UpdateWorkspace {
        workspace: String,
        auto_cleanup: Option<bool>,
        auto_cleanup_keep: Option<CleanupRetention>,
    },
}

impl ConfigArgs {
    /// What the two switches ask of automatic cleanup.
    pub open spec fn asked_cleanup(self) -> Option<bool> {
        if self.enable_auto_cleanup {
            Some(true)
        } else if self.disable_auto_cleanup {
            Some(false)
        } else {
            None
        }
    }

    /// Whether any setting is to be changed.
    pub open spec fn asks_update(self) -> bool {
        ||| self.asked_cleanup() is Some
        ||| self.auto_cleanup_keep is Some
        ||| self.auto_cleanup_interval is Some
        ||| self.health_check_interval is Some
        ||| self.img_size is Some
        ||| self.img_max_percent is Some
    }

    /// Why the command is refused, if it is: changes need a scope, only a workspace can be
    /// reset, and some settings are global.
    pub open spec fn refusal(self) -> Option<Seq<char>> {
        if self.global {
            if self.reset {
                Some("--reset is only valid with -w/--workspace"@)
            } else {
                None
            }
        } else if self.workspace is None {
            if self.reset || self.asks_update() {
                Some("specify -g (global) or -w <ws> (per-workspace) to make changes"@)
            } else {
                None
            }
        } else if self.reset {
            None
        } else if self.auto_cleanup_interval is Some {
            Some("--auto-cleanup-interval is global-only; use `-g` (interval is daemon-wide)"@)
        } else if self.health_check_interval is Some {
            Some("--health-check-interval is global-only; use `-g`"@)
        } else if self.img_size is Some {
            Some("--img-size is global-only; use `-g`"@)
        } else if self.img_max_percent is Some {
            Some("--img-max-percent is global-only; use `-g`"@)
        } else {
            None
        }
    }

    /// Whether a plan is what the arguments ask for.
    pub open spec fn is_plan(self, p: ConfigPlan) -> bool {
        if self.global {
            if self.asks_update() {
                p matches ConfigPlan::UpdateGlobal(u) && u.health_check_interval
                    == self.health_check_interval && u.img_size == self.img_size
                    && u.img_max_percent == self.img_max_percent && u.auto_cleanup
                    == self.asked_cleanup() && u.auto_cleanup_keep == self.auto_cleanup_keep
                    && u.auto_cleanup_interval_secs == self.auto_cleanup_interval
            } else {
                p is ViewGlobal
            }
        } else if self.workspace is None {
            p is Overview
        } else if self.reset {
            p matches ConfigPlan::ResetWorkspace { workspace } && Some(workspace) == self.workspace
        } else if self.asks_update() {
            p matches ConfigPlan::UpdateWorkspace { workspace, auto_cleanup, auto_cleanup_keep }
                && Some(workspace) == self.workspace && auto_cleanup == self.asked_cleanup()
                && auto_cleanup_keep == self.auto_cleanup_keep
        } else {
            p matches ConfigPlan::ViewWorkspace { workspace } && Some(workspace) == self.workspace
        }
    }

    /// What the command does, or why it is refused.
    pub fn plan(self) -> (r: Result<ConfigPlan, String>)
        ensures
            match r {
                Ok(p) => self.refusal() is None && self.is_plan(p),
                Err(e) => self.refusal() == Some(e@),
            },
    {
        let auto_cleanup = if self.enable_auto_cleanup {
            Some(true)
        } else if self.disable_auto_cleanup {
            Some(false)
        } else {
            None
        };
        let any_update = auto_cleanup.is_some() || self.auto_cleanup_keep.is_some()
            || self.auto_cleanup_interval.is_some() || self.health_check_interval.is_some()
            || self.img_size.is_some() || self.img_max_percent.is_some();
        if self.global {
            if self.reset {
                return Err("--reset is only valid with -w/--workspace".to_owned());
            }
            if any_update {
                return Ok(
                    ConfigPlan::UpdateGlobal(
                        GlobalUpdate {
                            health_check_interval: self.health_check_interval,
                            img_size: self.img_size,
                            img_max_percent: self.img_max_percent,
                            auto_cleanup,
                            auto_cleanup_keep: self.auto_cleanup_keep,
                            auto_cleanup_interval_secs: self.auto_cleanup_interval,
                        },
                    ),
                );
            }
            return Ok(ConfigPlan::ViewGlobal);
        }
        let workspace = match self.workspace {
            Some(w) => w,
            None => {
                if self.reset || any_update {
                    return Err(
                        "specify -g (global) or -w <ws> (per-workspace) to make changes".to_owned(),
                    );
                }
                return Ok(ConfigPlan::Overview);
            },
        };
        if self.reset {
            return Ok(ConfigPlan::ResetWorkspace { workspace });
        }
        if self.auto_cleanup_interval.is_some() {
            return Err(
                "--auto-cleanup-interval is global-only; use `-g` (interval is daemon-wide)".to_owned(),
            );
        }
        if self.health_check_interval.is_some() {
            return Err("--health-check-interval is global-only; use `-g`".to_owned());
        }
        if self.img_size.is_some() {
            return Err("--img-size is global-only; use `-g`".to_owned());
        }
        if self.img_max_percent.is_some() {
            return Err("--img-max-percent is global-only; use `-g`".to_owned());
        }
        if any_update {
            Ok(
                ConfigPlan::UpdateWorkspace {
                    workspace,
                    auto_cleanup,
                    auto_cleanup_keep: self.auto_cleanup_keep,
                },
            )
        } else {
            Ok(ConfigPlan::ViewWorkspace { workspace })
        }
    }
}

/// The request that changes the fields of a workspace's policy that a user mentioned, and no
/// others.
pub fn patch_request(
    workspace: String,
    auto_cleanup: Option<bool>,
    auto_cleanup_keep: Option<CleanupRetention>,
) -> (r: Request)
    ensures
        r matches Request::PatchWorkspacePolicy { workspace: w, auto_cleanup: a, auto_cleanup_keep: k }
            && w == workspace && a == asked_op(auto_cleanup) && k == asked_op(auto_cleanup_keep),
{
    Request::PatchWorkspacePolicy {
        workspace,
        auto_cleanup: match auto_cleanup {
            Some(v) => PolicyFieldOp::SetTo(v),
            None => PolicyFieldOp::Unchanged,
        },
        auto_cleanup_keep: match auto_cleanup_keep {
            Some(v) => PolicyFieldOp::SetTo(v),
            None => PolicyFieldOp::Unchanged,
        },
    }
}

/// The patch of a field that a user mentioned, or not.
pub open spec fn asked_op<T>(v: Option<T>) -> PolicyFieldOp<T> {
    match v {
        Some(v) => PolicyFieldOp::SetTo(v),
        None => PolicyFieldOp::Unchanged,
    }
}

/// Plugins for agent runtimes.
#[derive(Clone, Copy, Debug, PartialEq, Eq, Structural)]
pub enum PluginRuntime {
    Openclaw,
    Hermes,
}

/// The directory name of a runtime's adapter.
pub open spec fn runtime_name(runtime: PluginRuntime) -> Seq<char> {
    match runtime {
        PluginRuntime::Openclaw => "openclaw"@,
        PluginRuntime::Hermes => "hermes"@,
    }
}

/// The directory name of a runtime's adapter.
pub fn runtime_dir(runtime: PluginRuntime) -> (r: &'static str)
    ensures
        r@ == runtime_name(runtime),
{
    match runtime {
        PluginRuntime::Openclaw => "openclaw",
        PluginRuntime::Hermes => "hermes",
    }
}

/// The path of a runtime's adapter script for an action such as `detect` or `install`.
pub fn adapter_script(runtime: PluginRuntime, action: &str) -> (r: String)
    ensures
        r@ == "/usr/share/anolisa/adapters/ws-ckpt/"@ + runtime_name(runtime) + "/"@ + action@ + "-"@
            + runtime_name(runtime) + ".sh"@,
{
    let mut m = joined("/usr/share/anolisa/adapters/ws-ckpt/", runtime_dir(runtime));
    m.append("/");
    m.append(action);
    m.append("-");
    m.append(runtime_dir(runtime));
    m.append(".sh");
    m
}

/// The name of a runtime in messages.
pub open spec fn runtime_label(runtime: PluginRuntime) -> Seq<char> {
    match runtime {
        PluginRuntime::Openclaw => "Openclaw"@,
        PluginRuntime::Hermes => "Hermes"@,
    }
}

fn label_of(runtime: PluginRuntime) -> (r: &'static str)
    ensures
        r@ == runtime_label(runtime),
{
    match runtime {
        PluginRuntime::Openclaw => "Openclaw",
        PluginRuntime::Hermes => "Hermes",
    }
}

/// What the exit code of a detection script leads to.
#[derive(Debug, PartialEq, Eq)]
pub enum Detection {
    /// The plugin is there: say so, and stop.
    Installed(String),
    /// The plugin can be installed.
    NotInstalled,
    /// The plugin cannot be installed, for this reason.
    Refused(String),
}

/// Decides on the exit code of a runtime's detection script.
pub fn detection(runtime: PluginRuntime, code: i32) -> (r: Detection)
    ensures
        if code == 0 {
            r matches Detection::Installed(m) && m@ == runtime_name(runtime)
                + " plugin already installed"@
        } else if code == 1 {
            r is NotInstalled
        } else if code == 2 {
            r matches Detection::Refused(m) && m@ == "missing prerequisites for "@ + runtime_label(
                runtime,
            )
        } else {
            r matches Detection::Refused(m) && m@ == "detect failed for "@ + runtime_label(runtime)
                + " (exit "@ + signed_decimal(code as int) + ")"@
        },
{
    proof {
        reveal_strlit("detect");
        reveal_strlit(" failed for ");
        reveal_strlit("detect failed for ");
        assert("detect"@ + " failed for "@ =~= "detect failed for "@);
    }
    match code {
        0 => Detection::Installed(joined(runtime_dir(runtime), " plugin already installed")),
        1 => Detection::NotInstalled,
        2 => Detection::Refused(joined("missing prerequisites for ", label_of(runtime))),
        _ => Detection::Refused(failed_script("detect", runtime, code)),
    }
}

fn failed_script(action: &str, runtime: PluginRuntime, code: i32) -> (r: String)
    ensures
        r@ == action@ + " failed for "@ + runtime_label(runtime) + " (exit "@ + signed_decimal(
            code as int,
        ) + ")"@,
{
    let mut m = joined(action, " failed for ");
    m.append(label_of(runtime));
    m.append(" (exit ");
    push_signed(&mut m, code as i64);
    m.append(")");
    m
}

/// The message about an adapter script that ended with an error.
pub fn script_failure(install: bool, runtime: PluginRuntime, code: i32) -> (r: String)
    ensures
        r@ == (if install {
            "install"@
        } else {
            "uninstall"@
        }) + " failed for "@ + runtime_label(runtime) + " (exit "@ + signed_decimal(code as int)
            + ")"@,
{
    failed_script(
        if install {
            "install"
        } else {
            "uninstall"
        },
        runtime,
        code,
    )
}

/// The message about an adapter script that is not there.
pub fn script_missing(path: &str) -> (r: String)
    ensures
        r@ == "cannot find "@ + path@ + "; is ws-ckpt installed?"@,
{
    let mut m = joined("cannot find ", path);
    m.append("; is ws-ckpt installed?");
    m
}

/// Whether a line typed at a prompt agrees.
pub open spec fn agrees(line: Seq<char>) -> bool {
    trimmed(line) == "y"@ || trimmed(line) == "Y"@
}

/// Whether a line typed at a prompt agrees: `y` in either case, and nothing else.
pub fn is_yes(line: &str) -> (r: bool)
    ensures
        r == agrees(line@),
{
    let t = trim(line);
    str_eq(t.as_str(), "y") || str_eq(t.as_str(), "Y")
}

/// What to send once a user was asked to confirm a request: the deletion again, forced, if the
/// user agrees, and nothing otherwise. Only deletions are confirmed.
pub fn after_confirmation(request: &Request, line: &str) -> (r: Result<Option<Request>, String>)
    ensures
        if !agrees(line@) {
            r matches Ok(None)
        } else {
            match *request {
                Request::Delete { workspace, snapshot, .. } => r matches Ok(
                    Some(Request::Delete { workspace: w, snapshot: s, force }),
                ) && w == workspace && s == snapshot && force,
                _ => r matches Err(e) && e@
                    == "unexpected ConfirmationRequired for non-delete request"@,
            }
        },
{
    if !is_yes(line) {
        return Ok(None);
    }
    match request {
        Request::Delete { workspace, snapshot, .. } => Ok(
            Some(
                Request::Delete {
                    workspace: copy_opt(workspace),
                    snapshot: snapshot.clone(),
                    force: true,
                },
            ),
        ),
        _ => Err("unexpected ConfirmationRequired for non-delete request".to_owned()),
    }
}

} // verus!
