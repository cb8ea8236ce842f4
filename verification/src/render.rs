//! What the command line prints.

use crate::config::{
    joined, ConfigReport, FileConfig, CONFIG_FILE_PATH, DEFAULT_MOUNT_PATH, DEFAULT_SOCKET_PATH,
};
use crate::message::{
    ChangeType, DiffEntry, ErrorCode, Request, Response, StatusReport, WorkspaceInfo,
    ADVISORY_SNAPSHOT_LIMIT,
};
use crate::pages::entry_views;
use crate::policy::{
    EffectivePolicy, EffectiveView, GlobalPolicySnapshot, PolicyView, WorkspacePolicy,
};
use crate::retention::{format_retention, CleanupRetention, RetentionView};
use crate::snapshot::{EntryView, SnapshotEntry};
use crate::text::{chars_of, decimal, decimal_text, push_decimal};
use crate::text_list::{opt_text, texts};
use vstd::prelude::*;
use vstd::utf8::encode_utf8;

verus! {

/// A line of output, and where it goes.
#[derive(Debug, PartialEq, Eq)]
pub struct Line {
    pub to_stderr: bool,
    pub text: String,
}

/// What a line says.
pub struct LineView {
    pub to_stderr: bool,
    pub text: Seq<char>,
}

impl View for Line {
    type V = LineView;

    open spec fn view(&self) -> LineView {
        LineView { to_stderr: self.to_stderr, text: self.text@ }
    }
}

/// The views of lines.
pub open spec fn line_views(v: Seq<Line>) -> Seq<LineView> {
    v.map_values(|l: Line| l@)
}

/// A line of standard output.
pub open spec fn out(text: Seq<char>) -> LineView {
    LineView { to_stderr: false, text }
}

/// A line of standard error.
pub open spec fn err(text: Seq<char>) -> LineView {
    LineView { to_stderr: true, text }
}

/// What happens after a response was shown.
#[derive(Clone, Copy, Debug, PartialEq, Eq, Structural)]
pub enum Next {
    /// The command is done.
    Done,
    /// The command has failed.
    Fail,
    /// The user is to confirm.
    Confirm,
}

/// Lines to print, and what happens then.
#[derive(Debug, PartialEq, Eq)]
pub struct Shown {
    pub lines: Vec<Line>,
    pub next: Next,
}

/// Whether what is shown is that.
pub open spec fn shows(s: Shown, lines: Seq<LineView>, next: Next) -> bool {
    line_views(s.lines@) == lines && s.next == next
}

pub(crate) fn put(lines: &mut Vec<Line>, to_stderr: bool, text: String)
    ensures
        line_views(final(lines)@) == line_views(old(lines)@).push(
            LineView { to_stderr, text: text@ },
        ),
{
    let ghost before = line_views(lines@);
    lines.push(Line { to_stderr, text });
    proof {
        assert(line_views(lines@) =~= before.push(LineView { to_stderr, text: text@ }));
    }
}

pub(crate) fn no_lines() -> (r: Vec<Line>)
    ensures
        line_views(r@) == Seq::<LineView>::empty(),
{
    let r: Vec<Line> = Vec::new();
    proof {
        assert(line_views(r@) =~= Seq::<LineView>::empty());
    }
    r
}

/// Three texts, one after the other.
fn between(a: &str, b: &str, c: &str) -> (r: String)
    ensures
        r@ == a@ + b@ + c@,
{
    let mut m = joined(a, b);
    m.append(c);
    m
}

fn one_line(to_stderr: bool, text: String, next: Next) -> (r: Shown)
    ensures
        shows(r, seq![LineView { to_stderr, text: text@ }], next),
{
    let mut lines = no_lines();
    put(&mut lines, to_stderr, text);
    proof {
        assert(line_views(lines@) =~= seq![LineView { to_stderr, text: text@ }]);
    }
    Shown { lines, next }
}

/// The name of an error code.
pub open spec fn code_text(code: ErrorCode) -> Seq<char> {
    match code {
        ErrorCode::WorkspaceNotFound => "WorkspaceNotFound"@,
        ErrorCode::SnapshotNotFound => "SnapshotNotFound"@,
        ErrorCode::AlreadyInitialized => "AlreadyInitialized"@,
        ErrorCode::BtrfsError => "BtrfsError"@,
        ErrorCode::IoError => "IoError"@,
        ErrorCode::InvalidPath => "InvalidPath"@,
        ErrorCode::ConfirmationRequired => "ConfirmationRequired"@,
        ErrorCode::InternalError => "InternalError"@,
        ErrorCode::SnapshotAlreadyExists => "SnapshotAlreadyExists"@,
        ErrorCode::WriteLockConflict => "WriteLockConflict"@,
        ErrorCode::DiskSpaceInsufficient => "DiskSpaceInsufficient"@,
        ErrorCode::CwdOccupied => "CwdOccupied"@,
        ErrorCode::CwdScanFailed => "CwdScanFailed"@,
        ErrorCode::InvalidListRequest => "InvalidListRequest"@,
        ErrorCode::InvalidListCursor => "InvalidListCursor"@,
        ErrorCode::ListEntryTooLarge => "ListEntryTooLarge"@,
    }
}

/// The name of an error code.
pub fn code_name(code: ErrorCode) -> (r: &'static str)
    ensures
        r@ == code_text(code),
{
    match code {
        ErrorCode::WorkspaceNotFound => "WorkspaceNotFound",
        ErrorCode::SnapshotNotFound => "SnapshotNotFound",
        ErrorCode::AlreadyInitialized => "AlreadyInitialized",
        ErrorCode::BtrfsError => "BtrfsError",
        ErrorCode::IoError => "IoError",
        ErrorCode::InvalidPath => "InvalidPath",
        ErrorCode::ConfirmationRequired => "ConfirmationRequired",
        ErrorCode::InternalError => "InternalError",
        ErrorCode::SnapshotAlreadyExists => "SnapshotAlreadyExists",
        ErrorCode::WriteLockConflict => "WriteLockConflict",
        ErrorCode::DiskSpaceInsufficient => "DiskSpaceInsufficient",
        ErrorCode::CwdOccupied => "CwdOccupied",
        ErrorCode::CwdScanFailed => "CwdScanFailed",
        ErrorCode::InvalidListRequest => "InvalidListRequest",
        ErrorCode::InvalidListCursor => "InvalidListCursor",
        ErrorCode::ListEntryTooLarge => "ListEntryTooLarge",
    }
}

/// An error response as it is shown where there is no better advice.
pub open spec fn plain_error(code: ErrorCode, message: Seq<char>) -> Seq<char> {
    "\x1b[31mError ["@ + code_text(code) + "]: "@ + message + "\x1b[0m"@
}

fn plain_error_text(code: ErrorCode, message: &str) -> (r: String)
    ensures
        r@ == plain_error(code, message@),
{
    let mut m = between("\x1b[31mError [", code_name(code), "]: ");
    m.append(message);
    m.append("\x1b[0m");
    m
}

/// The advice that goes with an error, where there is some.
pub open spec fn advice(code: ErrorCode) -> Seq<Seq<char>> {
    match code {
        ErrorCode::SnapshotAlreadyExists => seq!["  Please use a different snapshot ID."@],
        ErrorCode::DiskSpaceInsufficient => seq![
            "  Use 'ws-ckpt delete' to remove old snapshots, or free disk space."@,
        ],
        ErrorCode::SnapshotNotFound => seq!["  Use 'ws-ckpt list' to view available snapshots."@],
        ErrorCode::WorkspaceNotFound => seq![
            "  Use 'ws-ckpt init' to initialize, or 'ws-ckpt list' to view workspaces."@,
        ],
        ErrorCode::CwdOccupied => seq![
            "  Tip: inspect each PID above with `ps -fp <PID>`, then cd them out or kill."@,
            "  (cwd may be a bind-mount alias of the workspace, not the workspace path.)"@,
        ],
        ErrorCode::CwdScanFailed => seq![
            "  This is typically transient \u{2014} retry the command."@,
        ],
        _ => seq![],
    }
}

/// The lines of an error: the message and its advice, or the plain message.
pub open spec fn error_lines(code: ErrorCode, message: Seq<char>) -> Seq<LineView> {
    if advice(code).len() == 0 {
        seq![err(plain_error(code, message))]
    } else {
        seq![err("\x1b[31m\u{2717} "@ + message + "\x1b[0m"@)] + advice(code).map_values(
            |t: Seq<char>| err(t),
        )
    }
}

fn show_error(code: ErrorCode, message: &str) -> (r: Shown)
    ensures
        shows(r, error_lines(code, message@), Next::Fail),
{
    let mut lines = no_lines();
    let (first, second) = match code {
        ErrorCode::SnapshotAlreadyExists => ("  Please use a different snapshot ID.", ""),
        ErrorCode::DiskSpaceInsufficient => (
            "  Use 'ws-ckpt delete' to remove old snapshots, or free disk space.",
            "",
        ),
        ErrorCode::SnapshotNotFound => ("  Use 'ws-ckpt list' to view available snapshots.", ""),
        ErrorCode::WorkspaceNotFound => (
            "  Use 'ws-ckpt init' to initialize, or 'ws-ckpt list' to view workspaces.",
            "",
        ),
        ErrorCode::CwdOccupied => (
            "  Tip: inspect each PID above with `ps -fp <PID>`, then cd them out or kill.",
            "  (cwd may be a bind-mount alias of the workspace, not the workspace path.)",
        ),
        ErrorCode::CwdScanFailed => ("  This is typically transient \u{2014} retry the command.", ""),
        _ => {
            return one_line(true, plain_error_text(code, message), Next::Fail);
        },
    };
    put(&mut lines, true, between("\x1b[31m\u{2717} ", message, "\x1b[0m"));
    put(&mut lines, true, first.to_owned());
    if code == ErrorCode::CwdOccupied {
        put(&mut lines, true, second.to_owned());
    }
    proof {
        assert(line_views(lines@) =~= error_lines(code, message@));
    }
    Shown { lines, next: Next::Fail }
}

/// A line of success.
pub open spec fn success(text: Seq<char>) -> LineView {
    out("\x1b[32m\u{2713} "@ + text + "\x1b[0m"@)
}

/// A line of warning.
pub open spec fn warning(text: Seq<char>) -> LineView {
    err("\x1b[33m\u{26a0} "@ + text + "\x1b[0m"@)
}

/// The line about a response that does not answer the request.
pub open spec fn unexpected() -> LineView {
    err("\x1b[33mUnexpected response type\x1b[0m"@)
}

/// The lines of a response to a command that changes something, and what happens then.
pub open spec fn response_lines(r: Response) -> (Seq<LineView>, Next) {
    match r {
        Response::InitOk { ws_id } => (
            seq![success("Workspace initialized: "@ + ws_id@)],
            Next::Done,
        ),
        Response::CheckpointOk { snapshot_id } => (
            seq![success("Checkpoint created: "@ + snapshot_id@)],
            Next::Done,
        ),
        Response::RollbackOk { from, to } => (
            seq![success("Rolled back workspace "@ + from@ + " to snapshot: "@ + to@)],
            Next::Done,
        ),
        Response::DeleteOk { target } => (seq![success("Deleted: "@ + target@)], Next::Done),
        Response::RecoverOk { workspace } => (
            seq![success("Workspace recovered: "@ + workspace@)],
            Next::Done,
        ),
        Response::Error { code, message } => if code == ErrorCode::ConfirmationRequired {
            (seq![warning(message@)], Next::Confirm)
        } else {
            (error_lines(code, message@), Next::Fail)
        },
        Response::CheckpointSkipped { reason } => (seq![warning(reason@)], Next::Done),
        _ => (seq![unexpected()], Next::Done),
    }
}

fn show_success(what: &str, name: &str) -> (r: Shown)
    ensures
        shows(r, seq![success(what@ + name@)], Next::Done),
{
    one_line(
        false,
        between("\x1b[32m\u{2713} ", joined(what, name).as_str(), "\x1b[0m"),
        Next::Done,
    )
}

/// Shows the response to a command that changes something.
pub fn show_response(response: &Response) -> (r: Shown)
    ensures
        shows(r, response_lines(*response).0, response_lines(*response).1),
{
    match response {
        Response::InitOk { ws_id } => show_success("Workspace initialized: ", ws_id.as_str()),
        Response::CheckpointOk { snapshot_id } => show_success(
            "Checkpoint created: ",
            snapshot_id.as_str(),
        ),
        Response::RollbackOk { from, to } => {
            let m = between("Rolled back workspace ", from.as_str(), " to snapshot: ");
            show_success(m.as_str(), to.as_str())
        },
        Response::DeleteOk { target } => show_success("Deleted: ", target.as_str()),
        Response::RecoverOk { workspace } => show_success(
            "Workspace recovered: ",
            workspace.as_str(),
        ),
        Response::Error { code, message } => {
            if *code == ErrorCode::ConfirmationRequired {
                one_line(
                    true,
                    between("\x1b[33m\u{26a0} ", message.as_str(), "\x1b[0m"),
                    Next::Confirm,
                )
            } else {
                show_error(*code, message.as_str())
            }
        },
        Response::CheckpointSkipped { reason } => one_line(
            true,
            between("\x1b[33m\u{26a0} ", reason.as_str(), "\x1b[0m"),
            Next::Done,
        ),
        _ => one_line(true, "\x1b[33mUnexpected response type\x1b[0m".to_owned(), Next::Done),
    }
}

/// The lines of a response to a query that does not hold what was asked for: an error, or
/// something else.
pub open spec fn failure_lines(r: Response) -> (Seq<LineView>, Next) {
    match r {
        Response::Error { code, message } => (seq![err(plain_error(code, message@))], Next::Fail),
        _ => (seq![unexpected()], Next::Done),
    }
}

/// Shows a response to a query that does not hold what was asked for.
pub fn show_failure(response: &Response) -> (r: Shown)
    ensures
        shows(r, failure_lines(*response).0, failure_lines(*response).1),
{
    match response {
        Response::Error { code, message } => one_line(
            true,
            plain_error_text(*code, message.as_str()),
            Next::Fail,
        ),
        _ => one_line(true, "\x1b[33mUnexpected response type\x1b[0m".to_owned(), Next::Done),
    }
}

/// The text of an error response where it ends a command: what failed, the code and the message.
pub open spec fn refusal(what: Seq<char>, code: ErrorCode, message: Seq<char>) -> Seq<char> {
    what + "["@ + code_text(code) + "]"@ + (if what.len() > 0 {
        ": "@
    } else {
        " "@
    }) + message
}

/// The text of an error response where it ends a command: what failed, the code and the message.
pub fn refusal_text(what: &str, code: ErrorCode, message: &str) -> (r: String)
    ensures
        r@ == refusal(what@, code, message@),
{
    let mut m = between(what, "[", code_name(code));
    m.append("]");
    if what.is_empty() {
        m.append(" ");
    } else {
        m.append(": ");
    }
    m.append(message);
    m
}

/// The warning that a view may be out of date, where the reload before it failed.
pub fn stale_view_warning(reply: &Response) -> (r: Option<String>)
    ensures
        match *reply {
            Response::Error { message, .. } => r matches Some(m) && m@
                == "\x1b[33m\u{26a0} View may be stale: daemon reload failed: "@ + message@
                + "\x1b[0m"@,
            _ => r is None,
        },
{
    match reply {
        Response::Error { message, .. } => Some(
            between(
                "\x1b[33m\u{26a0} View may be stale: daemon reload failed: ",
                message.as_str(),
                "\x1b[0m",
            ),
        ),
        _ => None,
    }
}

/// A character, `n` times.
pub open spec fn repeated(c: char, n: nat) -> Seq<char> {
    Seq::new(n, |i: int| c)
}

/// A text, filled up with spaces to `width` characters.
pub open spec fn padded(s: Seq<char>, width: nat) -> Seq<char> {
    if s.len() >= width {
        s
    } else {
        s + repeated(' ', (width - s.len()) as nat)
    }
}

fn push_repeated(m: &mut String, c: char, n: u128)
    ensures
        final(m)@ == old(m)@ + repeated(c, n as nat),
{
    let mut i: u128 = 0;
    proof {
        assert(m@ =~= old(m)@ + repeated(c, 0));
    }
    while i < n
        invariant
            i <= n,
            m@ == old(m)@ + repeated(c, i as nat),
        decreases n - i,
    {
        m.push(c);
        i = i + 1;
        proof {
            assert(m@ =~= old(m)@ + repeated(c, i as nat));
        }
    }
}

fn push_padded(m: &mut String, s: &str, width: u128)
    ensures
        final(m)@ == old(m)@ + padded(s@, width as nat),
{
    let len: u128 = chars_of(s).len() as u128;
    m.append(s);
    if len < width {
        push_repeated(m, ' ', width - len);
    }
    proof {
        assert(m@ =~= old(m)@ + padded(s@, width as nat));
    }
}

/// The larger of two numbers.
pub open spec fn larger(a: nat, b: nat) -> nat {
    if a >= b {
        a
    } else {
        b
    }
}

/// An identifier as it is listed: a missing snapshot is marked.
pub open spec fn listed_id(e: EntryView) -> Seq<char> {
    if e.meta.missing {
        e.id + " [MISSING]"@
    } else {
        e.id
    }
}

/// The width of the workspace column.
pub open spec fn workspace_width(l: Seq<EntryView>) -> nat
    decreases l.len(),
{
    if l.len() == 0 {
        9
    } else {
        larger(workspace_width(l.drop_last()), encode_utf8(l.last().workspace).len())
    }
}

/// The width of the snapshot column.
pub open spec fn snapshot_width(l: Seq<EntryView>) -> nat
    decreases l.len(),
{
    if l.len() == 0 {
        8
    } else {
        larger(
            snapshot_width(l.drop_last()),
            encode_utf8(l.last().id).len() + if l.last().meta.missing {
                10nat
            } else {
                0
            },
        )
    }
}

/// An offset from UTC in hours and, if need be, minutes.
pub open spec fn offset_text(offset_secs: i32) -> Seq<char> {
    let a = if offset_secs >= 0 {
        offset_secs as nat
    } else {
        (-(offset_secs as int)) as nat
    };
    let sign = if offset_secs >= 0 {
        "+"@
    } else {
        "-"@
    };
    let h = a / 3600;
    let m = a % 3600 / 60;
    if m == 0 {
        sign + decimal(h)
    } else if m < 10 {
        sign + decimal(h) + ":0"@ + decimal(m)
    } else {
        sign + decimal(h) + ":"@ + decimal(m)
    }
}

fn offset_shown(offset_secs: i32) -> (r: String)
    ensures
        r@ == offset_text(offset_secs),
{
    let wide: i64 = offset_secs as i64;
    let a: u64 = if wide >= 0 {
        wide as u64
    } else {
        (-wide) as u64
    };
    let mut s = if offset_secs >= 0 {
        "+".to_owned()
    } else {
        "-".to_owned()
    };
    push_decimal(&mut s, a / 3600);
    let m: u64 = a % 3600 / 60;
    if m != 0 {
        if m < 10 {
            s.append(":0");
        } else {
            s.append(":");
        }
        push_decimal(&mut s, m);
    }
    s
}

/// The heading of the date column.
pub open spec fn date_heading(offset_secs: i32) -> Seq<char> {
    "CREATED (UTC"@ + offset_text(offset_secs) + ")"@
}

/// A row of the list table.
pub open spec fn table_row(
    widths: (nat, nat, nat),
    cells: (Seq<char>, Seq<char>, Seq<char>, Seq<char>),
) -> Seq<char> {
    padded(cells.0, widths.0) + " "@ + padded(cells.1, widths.1) + " "@ + padded(cells.2, widths.2)
        + " "@ + cells.3
}

/// The widths of the columns of the list table.
pub open spec fn table_widths(l: Seq<EntryView>, offset_secs: i32) -> (nat, nat, nat) {
    (
        workspace_width(l),
        snapshot_width(l),
        larger(19, encode_utf8(date_heading(offset_secs)).len()),
    )
}

/// The rows of the first `n` entries.
pub open spec fn table_rows(
    l: Seq<EntryView>,
    dates: Seq<Seq<char>>,
    widths: (nat, nat, nat),
    n: int,
) -> Seq<LineView> {
    Seq::new(
        n as nat,
        |i: int|
            out(
                table_row(
                    widths,
                    (
                        l[i].workspace,
                        listed_id(l[i]),
                        dates[i],
                        match l[i].meta.message {
                            Some(m) => m,
                            None => "-"@,
                        },
                    ),
                ),
            ),
    )
}

/// The lines of a list of snapshots, given how their creation times are displayed.
pub open spec fn list_lines(l: Seq<EntryView>, dates: Seq<Seq<char>>, offset_secs: i32) -> Seq<
    LineView,
> {
    let w = table_widths(l, offset_secs);
    if l.len() == 0 {
        seq![out("No snapshots found."@)]
    } else {
        seq![
            out(table_row(w, ("WORKSPACE"@, "SNAPSHOT"@, date_heading(offset_secs), "MESSAGE"@))),
            out(repeated('-', w.0 + w.1 + w.2 + 10)),
        ] + table_rows(l, dates, w, l.len() as int) + seq![
            out("\nTotal: "@ + decimal(l.len()) + " snapshot(s)"@),
        ]
    }
}

fn row(widths: (u128, u128, u128), cells: (&str, &str, &str, &str)) -> (r: String)
    ensures
        r@ == table_row(
            (widths.0 as nat, widths.1 as nat, widths.2 as nat),
            (cells.0@, cells.1@, cells.2@, cells.3@),
        ),
{
    let mut m = String::new();
    push_padded(&mut m, cells.0, widths.0);
    m.append(" ");
    push_padded(&mut m, cells.1, widths.1);
    m.append(" ");
    push_padded(&mut m, cells.2, widths.2);
    m.append(" ");
    m.append(cells.3);
    proof {
        assert(m@ =~= table_row(
            (widths.0 as nat, widths.1 as nat, widths.2 as nat),
            (cells.0@, cells.1@, cells.2@, cells.3@),
        ));
    }
    m
}

fn max_width(a: u128, b: u128) -> (r: u128)
    ensures
        r == larger(a as nat, b as nat),
{
    if a >= b {
        a
    } else {
        b
    }
}

/// Shows a list of snapshots as a table. `dates` are their creation times as displayed in local
/// time, which is `offset_secs` ahead of UTC.
pub fn show_list(snapshots: &Vec<SnapshotEntry>, dates: &Vec<String>, offset_secs: i32) -> (r: Vec<
    Line,
>)
    requires
        dates@.len() == snapshots@.len(),
    ensures
        line_views(r@) == list_lines(
            entry_views(snapshots@),
            texts(dates@),
            offset_secs,
        ),
{
    let ghost l = entry_views(snapshots@);
    let ghost ds = texts(dates@);
    let mut lines = no_lines();
    if snapshots.len() == 0 {
        put(&mut lines, false, "No snapshots found.".to_owned());
        proof {
            assert(line_views(lines@) =~= list_lines(l, ds, offset_secs));
        }
        return lines;
    }
    let heading = between("CREATED (UTC", offset_shown(offset_secs).as_str(), ")");
    let mut w_ws: u128 = 9;
    let mut w_snap: u128 = 8;
    let mut i: usize = 0;
    proof {
        assert(l.take(0) =~= Seq::<EntryView>::empty());
    }
    while i < snapshots.len()
        invariant
            i <= snapshots@.len(),
            l == entry_views(snapshots@),
            w_ws == workspace_width(l.take(i as int)),
            w_snap == snapshot_width(l.take(i as int)),
            w_ws <= u64::MAX,
            w_snap <= u64::MAX + 10,
        decreases snapshots@.len() - i,
    {
        let e = &snapshots[i];
        proof {
            assert(l.take(i + 1).drop_last() =~= l.take(i as int));
            assert(l.take(i + 1).last() == e@);
        }
        let extra: u128 = if e.meta.missing {
            10
        } else {
            0
        };
        w_ws = max_width(w_ws, e.workspace.as_str().as_bytes().len() as u128);
        w_snap = max_width(w_snap, e.id.as_str().as_bytes().len() as u128 + extra);
        i = i + 1;
    }
    proof {
        assert(l.take(l.len() as int) =~= l);
    }
    let w_date: u128 = max_width(19, heading.as_str().as_bytes().len() as u128);
    let widths = (w_ws, w_snap, w_date);
    let ghost w = table_widths(l, offset_secs);
    put(&mut lines, false, row(widths, ("WORKSPACE", "SNAPSHOT", heading.as_str(), "MESSAGE")));
    let mut rule = String::new();
    push_repeated(&mut rule, '-', w_ws + w_snap + w_date + 10);
    proof {
        assert(rule@ =~= repeated('-', w.0 + w.1 + w.2 + 10));
    }
    put(&mut lines, false, rule);
    let ghost head = line_views(lines@);
    let mut j: usize = 0;
    proof {
        assert(head =~= head + table_rows(l, ds, w, 0));
    }
    while j < snapshots.len()
        invariant
            j <= snapshots@.len() == dates@.len(),
            l == entry_views(snapshots@),
            ds == texts(dates@),
            w == (widths.0 as nat, widths.1 as nat, widths.2 as nat),
            line_views(lines@) == head + table_rows(l, ds, w, j as int),
        decreases snapshots@.len() - j,
    {
        let e = &snapshots[j];
        let id = if e.meta.missing {
            joined(e.id.as_str(), " [MISSING]")
        } else {
            e.id.clone()
        };
        let message = match &e.meta.message {
            Some(m) => m.as_str(),
            None => "-",
        };
        proof {
            assert(l[j as int] == e@);
        }
        put(
            &mut lines,
            false,
            row(widths, (e.workspace.as_str(), id.as_str(), dates[j].as_str(), message)),
        );
        proof {
            assert(line_views(lines@) =~= head + table_rows(l, ds, w, j + 1));
        }
        j = j + 1;
    }
    let mut total = "\nTotal: ".to_owned();
    push_decimal(&mut total, snapshots.len() as u64);
    total.append(" snapshot(s)");
    put(&mut lines, false, total);
    proof {
        assert(line_views(lines@) =~= list_lines(l, ds, offset_secs));
    }
    lines
}

/// The mark of a kind of change.
pub open spec fn change_mark(c: ChangeType) -> Seq<char> {
    match c {
        ChangeType::Added => "\x1b[32m+"@,
        ChangeType::Deleted => "\x1b[31m-"@,
        ChangeType::Modified => "\x1b[33mM"@,
        ChangeType::Renamed => "\x1b[36mR"@,
    }
}

/// The line of a change.
pub open spec fn change_line(d: DiffEntry) -> LineView {
    out(
        change_mark(d.change_type) + "  "@ + d.path@ + match opt_text(d.detail) {
            Some(t) => " ("@ + t + ")"@,
            None => ""@,
        } + "\x1b[0m"@,
    )
}

/// The lines of changes.
pub open spec fn diff_lines(v: Seq<DiffEntry>) -> Seq<LineView> {
    if v.len() == 0 {
        seq![out("No differences found."@)]
    } else {
        Seq::new(v.len(), |i: int| change_line(v[i])) + seq![
            out("\n"@ + decimal(v.len()) + " change(s)"@),
        ]
    }
}

fn append_diff(lines: &mut Vec<Line>, changes: &Vec<DiffEntry>)
    ensures
        line_views(final(lines)@) == line_views(old(lines)@) + diff_lines(changes@),
{
    let ghost before = line_views(lines@);
    if changes.len() == 0 {
        put(lines, false, "No differences found.".to_owned());
        proof {
            assert(line_views(lines@) =~= before + diff_lines(changes@));
        }
        return;
    }
    let mut i: usize = 0;
    proof {
        assert(before =~= before + Seq::new(0, |i: int| change_line(changes@[i])));
    }
    while i < changes.len()
        invariant
            i <= changes@.len(),
            line_views(lines@) == before + Seq::new(i as nat, |j: int| change_line(changes@[j])),
        decreases changes@.len() - i,
    {
        let d = &changes[i];
        let mark = match d.change_type {
            ChangeType::Added => "\x1b[32m+",
            ChangeType::Deleted => "\x1b[31m-",
            ChangeType::Modified => "\x1b[33mM",
            ChangeType::Renamed => "\x1b[36mR",
        };
        let detail = match &d.detail {
            Some(t) => between(" (", t.as_str(), ")"),
            None => "".to_owned(),
        };
        let mut m = between(mark, "  ", d.path.as_str());
        m.append(detail.as_str());
        m.append("\x1b[0m");
        proof {
            assert(out(m@) == change_line(changes@[i as int]));
        }
        put(lines, false, m);
        proof {
            assert(line_views(lines@) =~= before + Seq::new(
                (i + 1) as nat,
                |j: int| change_line(changes@[j]),
            ));
        }
        i = i + 1;
    }
    let mut total = "\n".to_owned();
    push_decimal(&mut total, changes.len() as u64);
    total.append(" change(s)");
    put(lines, false, total);
    proof {
        assert(line_views(lines@) =~= before + diff_lines(changes@));
    }
}

/// Shows changes.
pub fn show_diff(changes: &Vec<DiffEntry>) -> (r: Vec<Line>)
    ensures
        line_views(r@) == diff_lines(changes@),
{
    let mut lines = no_lines();
    append_diff(&mut lines, changes);
    proof {
        assert(line_views(lines@) =~= diff_lines(changes@));
    }
    lines
}

/// The lines of a rollback preview.
pub open spec fn preview_lines(to: Seq<char>, changes: Seq<DiffEntry>) -> Seq<LineView> {
    seq![
        out("\x1b[1mRollback preview (no changes applied)\x1b[0m"@),
        out("Target snapshot: "@ + to + "\n"@),
        out("Changes since target snapshot (rollback will revert these):"@),
    ] + diff_lines(changes)
}

/// Shows what a rollback would revert.
pub fn show_rollback_preview(to: &str, changes: &Vec<DiffEntry>) -> (r: Vec<Line>)
    ensures
        line_views(r@) == preview_lines(to@, changes@),
{
    let mut lines = no_lines();
    put(&mut lines, false, "\x1b[1mRollback preview (no changes applied)\x1b[0m".to_owned());
    put(&mut lines, false, between("Target snapshot: ", to, "\n"));
    put(
        &mut lines,
        false,
        "Changes since target snapshot (rollback will revert these):".to_owned(),
    );
    append_diff(&mut lines, changes);
    proof {
        assert(line_views(lines@) =~= seq![
            out("\x1b[1mRollback preview (no changes applied)\x1b[0m"@),
            out("Target snapshot: "@ + to@ + "\n"@),
            out("Changes since target snapshot (rollback will revert these):"@),
        ] + diff_lines(changes@));
    }
    lines
}

/// The line of a workspace in a status report.
pub open spec fn status_line(w: WorkspaceInfo) -> LineView {
    out(
        "  "@ + padded(w.ws_id@, 25) + " "@ + padded(w.path@, 40) + " "@ + decimal(
            w.snapshot_count as nat,
        ),
    )
}

/// The lines of a status report, given how the usage of the file system is displayed.
pub open spec fn status_lines(report: StatusReport, usage: Seq<char>) -> Seq<LineView> {
    let ws = report.workspaces@;
    seq![
        out("\x1b[1mDaemon Status\x1b[0m"@),
        out("  Uptime: "@ + decimal(report.uptime_secs as nat) + " seconds"@),
        out("  Filesystem: "@ + usage),
        out(""@),
    ] + if ws.len() == 0 {
        seq![out("  No workspaces registered."@)]
    } else {
        seq![
            out("  "@ + padded("WORKSPACE"@, 25) + " "@ + padded("PATH"@, 40) + " SNAPSHOTS"@),
            out("  "@ + repeated('-', 75)),
        ] + Seq::new(ws.len(), |i: int| status_line(ws[i])) + seq![
            out("\n  Total: "@ + decimal(ws.len()) + " workspace(s)"@),
        ]
    }
}

/// Shows a status report. `usage` is the usage of the file system as it is displayed.
pub fn show_status(report: &StatusReport, usage: &str) -> (r: Vec<Line>)
    ensures
        line_views(r@) == status_lines(*report, usage@),
{
    let mut lines = no_lines();
    let ghost ws = report.workspaces@;
    put(&mut lines, false, "\x1b[1mDaemon Status\x1b[0m".to_owned());
    let mut up = "  Uptime: ".to_owned();
    push_decimal(&mut up, report.uptime_secs);
    up.append(" seconds");
    put(&mut lines, false, up);
    put(&mut lines, false, joined("  Filesystem: ", usage));
    put(&mut lines, false, "".to_owned());
    if report.workspaces.len() == 0 {
        put(&mut lines, false, "  No workspaces registered.".to_owned());
        proof {
            assert(line_views(lines@) =~= status_lines(*report, usage@));
        }
        return lines;
    }
    let mut head = "  ".to_owned();
    push_padded(&mut head, "WORKSPACE", 25);
    head.append(" ");
    push_padded(&mut head, "PATH", 40);
    head.append(" SNAPSHOTS");
    put(&mut lines, false, head);
    let mut rule = "  ".to_owned();
    push_repeated(&mut rule, '-', 75);
    put(&mut lines, false, rule);
    let ghost before = line_views(lines@);
    let mut i: usize = 0;
    proof {
        assert(before =~= before + Seq::new(0, |j: int| status_line(ws[j])));
    }
    while i < report.workspaces.len()
        invariant
            i <= ws.len(),
            ws == report.workspaces@,
            line_views(lines@) == before + Seq::new(i as nat, |j: int| status_line(ws[j])),
        decreases ws.len() - i,
    {
        let w = &report.workspaces[i];
        let mut m = "  ".to_owned();
        push_padded(&mut m, w.ws_id.as_str(), 25);
        m.append(" ");
        push_padded(&mut m, w.path.as_str(), 40);
        m.append(" ");
        push_decimal(&mut m, w.snapshot_count as u64);
        put(&mut lines, false, m);
        proof {
            assert(line_views(lines@) =~= before + Seq::new(
                (i + 1) as nat,
                |j: int| status_line(ws[j]),
            ));
        }
        i = i + 1;
    }
    let mut total = "\n  Total: ".to_owned();
    push_decimal(&mut total, report.workspaces.len() as u64);
    total.append(" workspace(s)");
    put(&mut lines, false, total);
    proof {
        assert(line_views(lines@) =~= status_lines(*report, usage@));
    }
    lines
}

/// The lines of a cleanup.
pub open spec fn cleanup_lines(removed: Seq<Seq<char>>) -> Seq<LineView> {
    if removed.len() == 0 {
        seq![success("No snapshots needed cleanup."@)]
    } else {
        seq![success("Cleaned up "@ + decimal(removed.len()) + " snapshot(s):"@)]
            + removed.map_values(|s: Seq<char>| out("  - "@ + s))
    }
}

/// Shows a cleanup.
pub fn show_cleanup(removed: &Vec<String>) -> (r: Vec<Line>)
    ensures
        line_views(r@) == cleanup_lines(texts(removed@)),
{
    let ghost rs = texts(removed@);
    let mut lines = no_lines();
    if removed.len() == 0 {
        put(
            &mut lines,
            false,
            between("\x1b[32m\u{2713} ", "No snapshots needed cleanup.", "\x1b[0m"),
        );
        proof {
            assert(line_views(lines@) =~= cleanup_lines(rs));
        }
        return lines;
    }
    let mut m = "Cleaned up ".to_owned();
    push_decimal(&mut m, removed.len() as u64);
    m.append(" snapshot(s):");
    put(&mut lines, false, between("\x1b[32m\u{2713} ", m.as_str(), "\x1b[0m"));
    let ghost before = line_views(lines@);
    let ghost item = |s: Seq<char>| out("  - "@ + s);
    let mut i: usize = 0;
    proof {
        assert(before =~= before + rs.take(0).map_values(item));
    }
    while i < removed.len()
        invariant
            i <= removed@.len(),
            rs == texts(removed@),
            item == |s: Seq<char>| out("  - "@ + s),
            line_views(lines@) == before + rs.take(i as int).map_values(item),
        decreases removed@.len() - i,
    {
        put(&mut lines, false, joined("  - ", removed[i].as_str()));
        proof {
            assert(line_views(lines@) =~= before + rs.take(i + 1).map_values(item));
        }
        i = i + 1;
    }
    proof {
        assert(rs.take(rs.len() as int) =~= rs);
        assert(line_views(lines@) =~= cleanup_lines(rs));
    }
    lines
}

/// The text of a flag.
pub open spec fn flag_text(b: bool) -> Seq<char> {
    if b {
        "true"@
    } else {
        "false"@
    }
}

/// The text of a flag.
pub fn flag_shown(b: bool) -> (r: &'static str)
    ensures
        r@ == flag_text(b),
{
    if b {
        "true"
    } else {
        "false"
    }
}

/// The line of a policy field: what is in force, the override, and the global value.
pub open spec fn policy_field(
    name: Seq<char>,
    effective: Seq<char>,
    local: Option<Seq<char>>,
    global: Seq<char>,
) -> LineView {
    out(
        "  "@ + padded(name, 22) + " effective="@ + padded(effective, 14) + " local="@ + padded(
            match local {
                Some(s) => s,
                None => "(inherit)"@,
            },
            14,
        ) + " global="@ + global,
    )
}

fn put_policy_field(
    lines: &mut Vec<Line>,
    name: &str,
    effective: &str,
    local: Option<String>,
    global: &str,
)
    ensures
        line_views(final(lines)@) == line_views(old(lines)@).push(
            policy_field(name@, effective@, opt_text(local), global@),
        ),
{
    let mut m = "  ".to_owned();
    push_padded(&mut m, name, 22);
    m.append(" effective=");
    push_padded(&mut m, effective, 14);
    m.append(" local=");
    match &local {
        Some(s) => {
            push_padded(&mut m, s.as_str(), 14);
        },
        None => {
            push_padded(&mut m, "(inherit)", 14);
        },
    }
    m.append(" global=");
    m.append(global);
    put(lines, false, m);
}

/// The lines of a workspace policy.
pub open spec fn policy_lines(
    ws_id: Seq<char>,
    effective: EffectiveView,
    local: PolicyView,
    global: EffectiveView,
) -> Seq<LineView> {
    seq![
        out("\x1b[1mWorkspace policy: "@ + ws_id + "\x1b[0m"@),
        policy_field(
            "auto_cleanup"@,
            flag_text(effective.auto_cleanup),
            match local.auto_cleanup {
                Some(b) => Some(flag_text(b)),
                None => None,
            },
            flag_text(global.auto_cleanup),
        ),
        policy_field(
            "auto_cleanup_keep"@,
            effective.auto_cleanup_keep.text(),
            match local.auto_cleanup_keep {
                Some(k) => Some(k.text()),
                None => None,
            },
            global.auto_cleanup_keep.text(),
        ),
        out("  auto_cleanup_interval: (global-only) \u{2014} see `ws-ckpt config -g` to view"@),
    ]
}

/// Shows a workspace policy.
pub fn show_policy(
    ws_id: &str,
    effective: &EffectivePolicy,
    local: &WorkspacePolicy,
    global: &GlobalPolicySnapshot,
) -> (r: Vec<Line>)
    ensures
        line_views(r@) == policy_lines(ws_id@, effective@, local@, global@),
{
    let mut lines = no_lines();
    put(&mut lines, false, between("\x1b[1mWorkspace policy: ", ws_id, "\x1b[0m"));
    let local_cleanup = match local.auto_cleanup {
        Some(b) => Some(flag_shown(b).to_owned()),
        None => None,
    };
    put_policy_field(
        &mut lines,
        "auto_cleanup",
        flag_shown(effective.auto_cleanup),
        local_cleanup,
        flag_shown(global.auto_cleanup),
    );
    let local_keep = match &local.auto_cleanup_keep {
        Some(k) => Some(format_retention(k)),
        None => None,
    };
    put_policy_field(
        &mut lines,
        "auto_cleanup_keep",
        format_retention(&effective.auto_cleanup_keep).as_str(),
        local_keep,
        format_retention(&global.auto_cleanup_keep).as_str(),
    );
    put(
        &mut lines,
        false,
        "  auto_cleanup_interval: (global-only) \u{2014} see `ws-ckpt config -g` to view".to_owned(),
    );
    proof {
        assert(line_views(lines@) =~= policy_lines(ws_id@, effective@, local@, global@));
    }
    lines
}

/// An interval in seconds and in whole minutes.
pub open spec fn interval_text(secs: u64) -> Seq<char> {
    decimal(secs as nat) + "s ("@ + decimal((secs / 60) as nat) + "m)"@
}

fn interval_shown(secs: u64) -> (r: String)
    ensures
        r@ == interval_text(secs),
{
    let mut m = decimal_text(secs);
    m.append("s (");
    push_decimal(&mut m, secs / 60);
    m.append("m)");
    m
}

/// What marks a value that is not set.
pub open spec fn default_mark(is_default: bool) -> Seq<char> {
    if is_default {
        " (default)"@
    } else {
        ""@
    }
}

fn default_shown(is_default: bool) -> (r: &'static str)
    ensures
        r@ == default_mark(is_default),
{
    if is_default {
        " (default)"
    } else {
        ""
    }
}

/// The text of whether cleanup is on.
pub open spec fn enabled_text(b: bool) -> Seq<char> {
    if b {
        "enabled"@
    } else {
        "disabled"@
    }
}

fn enabled_shown(b: bool) -> (r: &'static str)
    ensures
        r@ == enabled_text(b),
{
    if b {
        "enabled"
    } else {
        "disabled"
    }
}

/// A retention and its mode.
pub open spec fn keep_mode_text(k: RetentionView) -> Seq<char> {
    match k {
        RetentionView::Count(n) => decimal(n as nat) + " (count mode)"@,
        RetentionView::Age { raw, .. } => "\""@ + raw + "\" (age mode)"@,
    }
}

fn keep_mode_shown(k: &CleanupRetention) -> (r: String)
    ensures
        r@ == keep_mode_text(k@),
{
    match k {
        CleanupRetention::Count(n) => joined(decimal_text(*n as u64).as_str(), " (count mode)"),
        CleanupRetention::Age { raw, .. } => between("\"", raw.as_str(), "\" (age mode)"),
    }
}

/// The lines of the global configuration, given how the image percentage is displayed.
pub open spec fn global_config_lines(fc: FileConfig, percent: Seq<char>) -> Seq<LineView> {
    seq![
        out("\x1b[1mDaemon Configuration\x1b[0m"@),
        out("  Config file:             "@ + CONFIG_FILE_PATH@),
        out("  Mount path:              "@ + DEFAULT_MOUNT_PATH@ + " (default)"@),
        out("  Socket path:             "@ + DEFAULT_SOCKET_PATH@ + " (default)"@),
        out(
            "  Auto-cleanup:            "@ + enabled_text(fc.effective_auto_cleanup())
                + default_mark(fc.auto_cleanup is None),
        ),
        out(
            "  Auto-cleanup keep:       "@ + keep_mode_text(fc.effective_keep()) + default_mark(
                fc.auto_cleanup_keep is None,
            ),
        ),
        out(
            "  Auto-cleanup interval:   "@ + interval_text(fc.effective_cleanup_interval())
                + default_mark(fc.auto_cleanup_interval_secs is None),
        ),
        out(
            "  Health-check interval:   "@ + interval_text(fc.effective_health_interval())
                + default_mark(fc.health_check_interval_secs is None),
        ),
        out(
            "  Image size:              "@ + decimal(fc.effective_img_size() as nat) + " GB"@
                + default_mark(fc.set_img_size() is None),
        ),
        out(
            "  Image max percent:       "@ + percent + "%"@ + default_mark(
                fc.set_img_max_percent() is None,
            ),
        ),
    ]
}

/// Shows the global configuration. `percent` is the image percentage in force as it is
/// displayed.
pub fn show_global_config(fc: &FileConfig, percent: &str) -> (r: Vec<Line>)
    ensures
        line_views(r@) == global_config_lines(*fc, percent@),
{
    let mut lines = no_lines();
    put(&mut lines, false, "\x1b[1mDaemon Configuration\x1b[0m".to_owned());
    put(&mut lines, false, joined("  Config file:             ", CONFIG_FILE_PATH));
    put(
        &mut lines,
        false,
        between("  Mount path:              ", DEFAULT_MOUNT_PATH, " (default)"),
    );
    put(
        &mut lines,
        false,
        between("  Socket path:             ", DEFAULT_SOCKET_PATH, " (default)"),
    );
    put(
        &mut lines,
        false,
        between(
            "  Auto-cleanup:            ",
            enabled_shown(fc.auto_cleanup()),
            default_shown(fc.auto_cleanup.is_none()),
        ),
    );
    put(
        &mut lines,
        false,
        between(
            "  Auto-cleanup keep:       ",
            keep_mode_shown(&fc.keep()).as_str(),
            default_shown(fc.auto_cleanup_keep.is_none()),
        ),
    );
    put(
        &mut lines,
        false,
        between(
            "  Auto-cleanup interval:   ",
            interval_shown(fc.cleanup_interval()).as_str(),
            default_shown(fc.auto_cleanup_interval_secs.is_none()),
        ),
    );
    put(
        &mut lines,
        false,
        between(
            "  Health-check interval:   ",
            interval_shown(fc.health_interval()).as_str(),
            default_shown(fc.health_check_interval_secs.is_none()),
        ),
    );
    let mut size = between("  Image size:              ", decimal_text(fc.img_size()).as_str(), " GB");
    size.append(default_shown(fc.configured_img_size().is_none()));
    put(&mut lines, false, size);
    let mut pct = between("  Image max percent:       ", percent, "%");
    pct.append(default_shown(fc.configured_img_max_percent().is_none()));
    put(&mut lines, false, pct);
    proof {
        assert(line_views(lines@) =~= global_config_lines(*fc, percent@));
    }
    lines
}

/// The number of workspaces without an override.
pub open spec fn inheriting(total: nat, with_override: nat) -> nat {
    if total >= with_override {
        (total - with_override) as nat
    } else {
        0
    }
}

/// The lines of the configuration overview, given how the image percentage is displayed.
pub open spec fn overview_lines(
    c: ConfigReport,
    total: nat,
    with_override: nat,
    percent: Seq<char>,
) -> Seq<LineView> {
    seq![
        out("\x1b[1mDaemon Configuration\x1b[0m"@),
        out("  Config file:             "@ + CONFIG_FILE_PATH@),
        out("  Mount path:              "@ + c.mount_path@),
        out("  Socket path:             "@ + c.socket_path@),
        out("  Auto-cleanup:            "@ + enabled_text(c.auto_cleanup)),
        out("  Auto-cleanup keep:       "@ + c.auto_cleanup_keep@.text()),
        out("  Auto-cleanup interval:   "@ + interval_text(c.auto_cleanup_interval_secs)),
        out("  Health-check interval:   "@ + interval_text(c.health_check_interval_secs)),
        out("  Image size:              "@ + decimal(c.img_size as nat) + " GB"@),
        out("  Image max percent:       "@ + percent + "%"@),
        out(""@),
        out("\x1b[1mWorkspaces\x1b[0m"@),
        out("  Total:                   "@ + decimal(total)),
        out("  With local override:     "@ + decimal(with_override)),
        out("  Inherit global:          "@ + decimal(inheriting(total, with_override))),
    ] + if with_override > 0 {
        seq![out("\nUse `ws-ckpt config -w <ws>` to inspect a specific workspace."@)]
    } else {
        seq![]
    }
}

/// The number of workspaces without an override.
pub fn inherit_count(total: usize, with_override: usize) -> (r: usize)
    ensures
        r == inheriting(total as nat, with_override as nat),
{
    if total >= with_override {
        total - with_override
    } else {
        0
    }
}

/// Shows the configuration overview. `percent` is the image percentage as it is displayed.
pub fn show_overview(c: &ConfigReport, total: usize, with_override: usize, percent: &str) -> (r: Vec<
    Line,
>)
    ensures
        line_views(r@) == overview_lines(*c, total as nat, with_override as nat, percent@),
{
    let mut lines = no_lines();
    put(&mut lines, false, "\x1b[1mDaemon Configuration\x1b[0m".to_owned());
    put(&mut lines, false, joined("  Config file:             ", CONFIG_FILE_PATH));
    put(&mut lines, false, joined("  Mount path:              ", c.mount_path.as_str()));
    put(&mut lines, false, joined("  Socket path:             ", c.socket_path.as_str()));
    put(&mut lines, false, joined("  Auto-cleanup:            ", enabled_shown(c.auto_cleanup)));
    put(
        &mut lines,
        false,
        joined("  Auto-cleanup keep:       ", format_retention(&c.auto_cleanup_keep).as_str()),
    );
    put(
        &mut lines,
        false,
        joined(
            "  Auto-cleanup interval:   ",
            interval_shown(c.auto_cleanup_interval_secs).as_str(),
        ),
    );
    put(
        &mut lines,
        false,
        joined(
            "  Health-check interval:   ",
            interval_shown(c.health_check_interval_secs).as_str(),
        ),
    );
    put(
        &mut lines,
        false,
        between("  Image size:              ", decimal_text(c.img_size).as_str(), " GB"),
    );
    put(&mut lines, false, between("  Image max percent:       ", percent, "%"));
    put(&mut lines, false, "".to_owned());
    put(&mut lines, false, "\x1b[1mWorkspaces\x1b[0m".to_owned());
    put(
        &mut lines,
        false,
        joined("  Total:                   ", decimal_text(total as u64).as_str()),
    );
    put(
        &mut lines,
        false,
        joined("  With local override:     ", decimal_text(with_override as u64).as_str()),
    );
    put(
        &mut lines,
        false,
        joined(
            "  Inherit global:          ",
            decimal_text(inherit_count(total, with_override) as u64).as_str(),
        ),
    );
    if with_override > 0 {
        put(
            &mut lines,
            false,
            "\nUse `ws-ckpt config -w <ws>` to inspect a specific workspace.".to_owned(),
        );
    }
    proof {
        assert(line_views(lines@) =~= overview_lines(
            *c,
            total as nat,
            with_override as nat,
            percent@,
        ));
    }
    lines
}

/// The warning that some workspaces have too many snapshots.
pub open spec fn snapshot_warning(count: u32) -> Option<Seq<char>> {
    if count > 0 {
        Some(
            decimal(count as nat) + " workspace(s) have more than "@ + decimal(
                ADVISORY_SNAPSHOT_LIMIT as nat,
            ) + " snapshots. Run `ws-ckpt status` to see details"@,
        )
    } else {
        None
    }
}

/// The lines of one warning, if there is one.
pub open spec fn advisory_line(w: Option<Seq<char>>) -> Seq<LineView> {
    match w {
        Some(m) => seq![err("\x1b[33m\u{26a0} Warning: "@ + m + ".\x1b[0m"@)],
        None => seq![],
    }
}

/// The lines of the health advisory: the warnings and what to do about them, or nothing.
pub open spec fn advisory_lines(count: u32, fs_warning: Option<Seq<char>>) -> Seq<LineView> {
    if count == 0 && fs_warning is None {
        seq![]
    } else {
        seq![err(""@)] + advisory_line(snapshot_warning(count)) + advisory_line(fs_warning) + seq![
            err(""@),
            err(
                "\x1b[33m  Manual cleanup:   ws-ckpt cleanup -w <workspace> --keep <N>\x1b[0m"@,
            ),
            err("\x1b[33m  Or enable auto-cleanup for all workspaces:\x1b[0m"@),
            err("\x1b[33m      ws-ckpt config -g --enable-auto-cleanup \\\x1b[0m"@),
            err("\x1b[33m                        --auto-cleanup-keep <NUM|DURATION> \\\x1b[0m"@),
            err("\x1b[33m                        --auto-cleanup-interval <SECONDS>\x1b[0m"@),
            err("\x1b[33m  Suggested values:\x1b[0m"@),
            err(
                "\x1b[33m      ws-ckpt config -g --enable-auto-cleanup --auto-cleanup-keep 1000 --auto-cleanup-interval 86400\x1b[0m"@,
            ),
        ]
    }
}

/// Shows the health advisory. `fs_warning` is the warning about the usage of the file system, if
/// there is one.
pub fn show_advisory(count: u32, fs_warning: &Option<String>) -> (r: Vec<Line>)
    ensures
        line_views(r@) == advisory_lines(count, opt_text(*fs_warning)),
{
    let mut lines = no_lines();
    if count == 0 && fs_warning.is_none() {
        return lines;
    }
    put(&mut lines, true, "".to_owned());
    if count > 0 {
        let mut m = decimal_text(count as u64);
        m.append(" workspace(s) have more than ");
        push_decimal(&mut m, ADVISORY_SNAPSHOT_LIMIT as u64);
        m.append(" snapshots. Run `ws-ckpt status` to see details");
        put(&mut lines, true, between("\x1b[33m\u{26a0} Warning: ", m.as_str(), ".\x1b[0m"));
    }
    proof {
        assert(line_views(lines@) =~= seq![err(""@)] + advisory_line(snapshot_warning(count)));
    }
    let ghost before = line_views(lines@);
    if let Some(w) = fs_warning {
        put(&mut lines, true, between("\x1b[33m\u{26a0} Warning: ", w.as_str(), ".\x1b[0m"));
    }
    proof {
        assert(line_views(lines@) =~= before + advisory_line(opt_text(*fs_warning)));
    }
    put(&mut lines, true, "".to_owned());
    put(
        &mut lines,
        true,
        "\x1b[33m  Manual cleanup:   ws-ckpt cleanup -w <workspace> --keep <N>\x1b[0m".to_owned(),
    );
    put(
        &mut lines,
        true,
        "\x1b[33m  Or enable auto-cleanup for all workspaces:\x1b[0m".to_owned(),
    );
    put(
        &mut lines,
        true,
        "\x1b[33m      ws-ckpt config -g --enable-auto-cleanup \\\x1b[0m".to_owned(),
    );
    put(
        &mut lines,
        true,
        "\x1b[33m                        --auto-cleanup-keep <NUM|DURATION> \\\x1b[0m".to_owned(),
    );
    put(
        &mut lines,
        true,
        "\x1b[33m                        --auto-cleanup-interval <SECONDS>\x1b[0m".to_owned(),
    );
    put(&mut lines, true, "\x1b[33m  Suggested values:\x1b[0m".to_owned());
    put(
        &mut lines,
        true,
        "\x1b[33m      ws-ckpt config -g --enable-auto-cleanup --auto-cleanup-keep 1000 --auto-cleanup-interval 86400\x1b[0m".to_owned(),
    );
    proof {
        assert(line_views(lines@) =~= advisory_lines(count, opt_text(*fs_warning)));
    }
    lines
}

/// What to do about the response to a request.
#[derive(Debug, PartialEq, Eq)]
pub enum Answer {
    /// Print it, and go on.
    Print(Shown),
    /// Give what it holds back in JSON.
    Json,
    /// End the command with this message.
    Refuse(String),
    /// End the command: nobody asked for this.
    Unexpected,
}

/// Whether a request is a query, whose answer has a form of its own.
pub open spec fn is_query(request: Request) -> bool {
    request is List || request is Status || request is Diff || request is RollbackPreview
        || request is Cleanup
}

/// Whether an answer prints these lines, and what happens then.
pub open spec fn prints(a: Answer, lines: Seq<LineView>, next: Next) -> bool {
    a matches Answer::Print(s) && shows(s, lines, next)
}

/// Whether an answer is that to a request: what the request asked for is shown in its own form,
/// or in JSON where that is wanted; a query that did not get it has failed; and any other
/// response speaks for itself. `dates` are those of the entries of a list, `offset_secs` is
/// their offset from UTC, and `usage` is how the usage of the file system is displayed.
pub open spec fn is_answer(
    a: Answer,
    request: Request,
    response: Response,
    json_wanted: bool,
    dates: Seq<Seq<char>>,
    offset_secs: i32,
    usage: Seq<char>,
) -> bool {
    match (request, response) {
        (Request::List { .. }, Response::ListOk { snapshots }) => if json_wanted {
            a is Json
        } else {
            prints(a, list_lines(entry_views(snapshots@), dates, offset_secs), Next::Done)
        },
        (Request::Status { .. }, Response::StatusOk { report }) => if json_wanted {
            a is Json
        } else {
            prints(a, status_lines(report, usage), Next::Done)
        },
        (Request::Diff { .. }, Response::DiffOk { changes }) => prints(
            a,
            diff_lines(changes@),
            Next::Done,
        ),
        (Request::RollbackPreview { .. }, Response::RollbackPreviewOk { to, changes }) => prints(
            a,
            preview_lines(to@, changes@),
            Next::Done,
        ),
        (Request::Cleanup { .. }, Response::CleanupOk { removed }) => prints(
            a,
            cleanup_lines(texts(removed@)),
            Next::Done,
        ),
        (Request::ReloadConfig, Response::ReloadConfigOk { .. }) => prints(
            a,
            seq![success("Daemon reloaded configuration"@)],
            Next::Done,
        ),
        (Request::ReloadConfig, Response::Error { code, message }) => {
            a matches Answer::Refuse(m) && m@ == refusal("Daemon reload failed "@, code, message@)
        },
        (Request::ReloadConfig, _) => a is Unexpected,
        _ => if is_query(request) {
            prints(a, failure_lines(response).0, failure_lines(response).1)
        } else {
            prints(a, response_lines(response).0, response_lines(response).1)
        },
    }
}

fn printed(lines: Vec<Line>) -> (r: Answer)
    ensures
        prints(r, line_views(lines@), Next::Done),
{
    Answer::Print(Shown { lines, next: Next::Done })
}

/// Decides what to do about the response to a request.
pub fn show_answer(
    request: &Request,
    response: &Response,
    json_wanted: bool,
    dates: &Vec<String>,
    offset_secs: i32,
    usage: &str,
) -> (r: Answer)
    requires
        *request is List && !json_wanted ==> (*response matches Response::ListOk { snapshots }
            ==> dates@.len() == snapshots@.len()),
    ensures
        is_answer(r, *request, *response, json_wanted, texts(dates@), offset_secs, usage@),
{
    match (request, response) {
        (Request::List { .. }, Response::ListOk { snapshots }) => if json_wanted {
            Answer::Json
        } else {
            printed(show_list(snapshots, dates, offset_secs))
        },
        (Request::Status { .. }, Response::StatusOk { report }) => if json_wanted {
            Answer::Json
        } else {
            printed(show_status(report, usage))
        },
        (Request::Diff { .. }, Response::DiffOk { changes }) => printed(show_diff(changes)),
        (Request::RollbackPreview { .. }, Response::RollbackPreviewOk { to, changes }) => {
            printed(show_rollback_preview(to.as_str(), changes))
        },
        (Request::Cleanup { .. }, Response::CleanupOk { removed }) => printed(
            show_cleanup(removed),
        ),
        (Request::ReloadConfig, Response::ReloadConfigOk { .. }) => Answer::Print(
            one_line(
                false,
                between("\x1b[32m\u{2713} ", "Daemon reloaded configuration", "\x1b[0m"),
                Next::Done,
            ),
        ),
        (Request::ReloadConfig, Response::Error { code, message }) => Answer::Refuse(
            refusal_text("Daemon reload failed ", *code, message.as_str()),
        ),
        (Request::ReloadConfig, _) => Answer::Unexpected,
        (Request::List { .. }, _) => Answer::Print(show_failure(response)),
        (Request::Status { .. }, _) => Answer::Print(show_failure(response)),
        (Request::Diff { .. }, _) => Answer::Print(show_failure(response)),
        (Request::RollbackPreview { .. }, _) => Answer::Print(show_failure(response)),
        (Request::Cleanup { .. }, _) => Answer::Print(show_failure(response)),
        (_, _) => Answer::Print(show_response(response)),
    }
}

} // verus!
