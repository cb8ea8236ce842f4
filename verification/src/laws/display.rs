//! Promises about what is printed.

use crate::config::{ConfigReport, FileConfig};
use crate::message::{
    ChangeType, DiffEntry, ErrorCode, Request, Response, StatusReport, WorkspaceInfo,
};
use crate::pages::entry_views;
use crate::policy::{EffectivePolicy, GlobalPolicySnapshot, WorkspacePolicy};
use crate::render::{
    code_name, flag_shown, inherit_count, line_views, out, padded, refusal_text, repeated,
    show_advisory, show_answer, show_cleanup, show_diff, show_failure, show_global_config,
    show_list, show_overview, show_policy, show_response, show_rollback_preview, show_status,
    stale_view_warning, Answer, Line, LineView, Shown,
};
use crate::retention::CleanupRetention;
use crate::snapshot::SnapshotEntry;
use crate::text::decimal;
use crate::text_list::texts;
use vstd::prelude::*;
use vstd::utf8::encode_utf8;

verus! {

/// Whether a text stands in another one, at a place.
pub open spec fn stands_at(s: Seq<char>, i: int, t: Seq<char>) -> bool {
    0 <= i && i + t.len() <= s.len() && s.subrange(i, i + t.len()) == t
}

/// Whether a text stands in another one.
pub open spec fn holds(s: Seq<char>, t: Seq<char>) -> bool {
    exists|i: int| #[trigger] stands_at(s, i, t)
}

/// Whether a text is one or more spaces.
pub open spec fn is_gap(s: Seq<char>) -> bool {
    s.len() > 0 && forall|i: int| 0 <= i < s.len() ==> #[trigger] s[i] == ' '
}

pub(crate) proof fn lemma_stands(s: Seq<char>, p: Seq<char>, t: Seq<char>, q: Seq<char>)
    requires
        s =~= p + t + q,
    ensures
        stands_at(s, p.len() as int, t),
        holds(s, t),
{
    assert(s.subrange(p.len() as int, (p.len() + t.len()) as int) =~= t);
}

proof fn lemma_line(r: Seq<Line>, i: int)
    requires
        0 <= i < r.len(),
    ensures
        line_views(r).len() == r.len(),
        line_views(r)[i] == r[i]@,
{
}

/// Whether a line of standard output shows a change: it begins with the colour and the mark of
/// the kind of change, which no other kind has; the path follows, and the detail where there is
/// one.
pub open spec fn shows_change(l: LineView, d: DiffEntry) -> bool {
    let t = l.text;
    &&& !l.to_stderr
    &&& t.len() >= 8 + d.path@.len()
    &&& d.change_type is Added <==> t[5] == '+'
    &&& d.change_type is Deleted <==> t[5] == '-'
    &&& d.change_type is Modified <==> t[5] == 'M'
    &&& d.change_type is Renamed <==> t[5] == 'R'
    &&& d.change_type is Added ==> t.take(5) == seq!['\x1b', '[', '3', '2', 'm']
    &&& d.change_type is Deleted ==> t.take(5) == seq!['\x1b', '[', '3', '1', 'm']
    &&& d.change_type is Modified ==> t.take(5) == seq!['\x1b', '[', '3', '3', 'm']
    &&& d.change_type is Renamed ==> t.take(5) == seq!['\x1b', '[', '3', '6', 'm']
    &&& stands_at(t, 8, d.path@)
    &&& d.detail is None ==> t.len() == 12 + d.path@.len()
    &&& d.detail matches Some(x) ==> t.len() == 15 + d.path@.len() + x@.len()
        && stands_at(t, 10 + d.path@.len() as int, x@)
}

/// Whether the lines of `r` from `from` on show changes: one line for each, in their order, on
/// standard output. The last line counts them.
pub open spec fn shows_changes(r: Seq<Line>, from: int, changes: Seq<DiffEntry>) -> bool {
    &&& changes.len() == 0 ==> r.len() == from + 1
    &&& changes.len() > 0 ==> {
        &&& r.len() == from + changes.len() + 1
        &&& !r.last().to_stderr
        &&& holds(r.last().text@, decimal(changes.len()))
        &&& forall|i: int|
            #![trigger changes[i]]
            0 <= i < changes.len() ==> shows_change(r[from + i]@, changes[i])
    }
}

proof fn lemma_change_line(d: DiffEntry)
    ensures
        shows_change(crate::render::change_line(d), d),
{
    reveal_strlit("\x1b[32m+");
    reveal_strlit("\x1b[31m-");
    reveal_strlit("\x1b[33mM");
    reveal_strlit("\x1b[36mR");
    reveal_strlit("  ");
    reveal_strlit(" (");
    reveal_strlit(")");
    reveal_strlit("");
    reveal_strlit("\x1b[0m");
    let t = crate::render::change_line(d).text;
    let m = crate::render::change_mark(d.change_type);
    assert(m.len() == 6);
    let rest = t.skip(8 + d.path@.len() as int);
    lemma_stands(t, m + "  "@, d.path@, rest);
    if d.detail is Some {
        let x = d.detail->0@;
        lemma_stands(t, m + "  "@ + d.path@ + " ("@, x, ")"@ + "\x1b[0m"@);
    }
    assert(t.take(5) =~= m.take(5));
    assert(t[5] == m[5]);
    match d.change_type {
        ChangeType::Added => {
            assert(m.take(5) =~= seq!['\x1b', '[', '3', '2', 'm']);
        },
        ChangeType::Deleted => {
            assert(m.take(5) =~= seq!['\x1b', '[', '3', '1', 'm']);
        },
        ChangeType::Modified => {
            assert(m.take(5) =~= seq!['\x1b', '[', '3', '3', 'm']);
        },
        ChangeType::Renamed => {
            assert(m.take(5) =~= seq!['\x1b', '[', '3', '6', 'm']);
        },
    }
}

proof fn lemma_shows_changes(r: Seq<Line>, from: int, changes: Seq<DiffEntry>)
    requires
        0 <= from <= r.len(),
        line_views(r).skip(from) == crate::render::diff_lines(changes),
    ensures
        shows_changes(r, from, changes),
{
    let v = line_views(r);
    let d = crate::render::diff_lines(changes);
    assert(v.len() == r.len());
    assert(d.len() == r.len() - from);
    if changes.len() > 0 {
        assert forall|i: int| #![trigger changes[i]] 0 <= i < changes.len() implies shows_change(
            r[from + i]@,
            changes[i],
        ) by {
            assert(v[from + i] == r[from + i]@);
            assert(v.skip(from)[i] == v[from + i]);
            lemma_change_line(changes[i]);
        }
        let n = changes.len();
        assert(v.skip(from)[n as int] == v[from + n]);
        assert(v[from + n] == r[from + n]@);
        lemma_stands(r.last().text@, "\n"@, decimal(n), " change(s)"@);
    }
}

/// Every change is shown on a line of its own, with the mark of its kind: a plus for what was
/// added, a minus for what was deleted, an M for what was modified and an R for what was renamed.
pub proof fn lemma_kinds_of_change_are_told_apart(changes: Vec<DiffEntry>, r: Vec<Line>)
    requires
        call_ensures(show_diff, (&changes,), r),
    ensures
        shows_changes(r@, 0, changes@),
{
    assert(line_views(r@).skip(0) =~= line_views(r@));
    lemma_shows_changes(r@, 0, changes@);
}

/// A preview names its target, and shows the changes as they are shown elsewhere.
pub proof fn lemma_previews_show_target_and_changes(
    to: &str,
    changes: Vec<DiffEntry>,
    r: Vec<Line>,
    plain: Vec<Line>,
)
    requires
        call_ensures(show_rollback_preview, (to, &changes), r),
        call_ensures(show_diff, (&changes,), plain),
    ensures
        r@.len() == plain@.len() + 3,
        holds(r@[1].text@, to@),
        shows_changes(r@, 3, changes@),
        forall|i: int|
            0 <= i < plain@.len() ==> #[trigger] plain@[i]@ == r@[i + 3]@,
{
    let v = line_views(r@);
    let w = line_views(plain@);
    assert(v.skip(3) =~= crate::render::diff_lines(changes@));
    assert(v.len() == r@.len() && w.len() == plain@.len());
    assert(v[1] == r@[1]@);
    lemma_stands(r@[1].text@, "Target snapshot: "@, to@, "\n"@);
    lemma_shows_changes(r@, 3, changes@);
    assert forall|i: int| 0 <= i < plain@.len() implies #[trigger] plain@[i]@ == r@[i + 3]@ by {
        assert(w[i] == plain@[i]@);
        assert(v.skip(3)[i] == v[i + 3]);
        assert(v[i + 3] == r@[i + 3]@);
    }
}

/// Whether a line of standard output shows an entry: its workspace, its identifier, which is marked exactly where the
/// snapshot is missing, its date and its message, or a dash, in that order and set apart by
/// spaces.
pub open spec fn shows_entry(l: LineView, e: SnapshotEntry, date: Seq<char>) -> bool {
    !l.to_stderr && exists|a: Seq<char>, b: Seq<char>, c: Seq<char>|
        #![trigger is_gap(a), is_gap(b), is_gap(c)]
        is_gap(a) && is_gap(b) && is_gap(c) && l.text == e.workspace@ + a + e.id@ + (
        if e.meta.missing {
            seq![' ', '[', 'M', 'I', 'S', 'S', 'I', 'N', 'G', ']']
        } else {
            seq![]
        }) + b + date + c + (match e.meta.message {
            Some(m) => m@,
            None => seq!['-'],
        })
}

proof fn lemma_padded(s: Seq<char>, width: nat) -> (gap: Seq<char>)
    ensures
        padded(s, width) + " "@ == s + gap,
        is_gap(gap),
{
    reveal_strlit(" ");
    let gap = if s.len() >= width {
        " "@
    } else {
        repeated(' ', (width - s.len()) as nat) + " "@
    };
    assert(padded(s, width) + " "@ =~= s + gap);
    gap
}

proof fn lemma_row(w: (nat, nat, nat), e: SnapshotEntry, date: Seq<char>)
    ensures
        shows_entry(
            out(
                crate::render::table_row(
                    w,
                    (
                        e@.workspace,
                        crate::render::listed_id(e@),
                        date,
                        match e@.meta.message {
                            Some(m) => m,
                            None => "-"@,
                        },
                    ),
                ),
            ),
            e,
            date,
        ),
{
    reveal_strlit(" [MISSING]");
    reveal_strlit("-");
    let id = crate::render::listed_id(e@);
    let mark: Seq<char> = if e.meta.missing {
        seq![' ', '[', 'M', 'I', 'S', 'S', 'I', 'N', 'G', ']']
    } else {
        seq![]
    };
    assert(" [MISSING]"@ =~= seq![' ', '[', 'M', 'I', 'S', 'S', 'I', 'N', 'G', ']']);
    assert("-"@ =~= seq!['-']);
    assert(id =~= e.id@ + mark);
    let a = lemma_padded(e.workspace@, w.0);
    let b = lemma_padded(id, w.1);
    let c = lemma_padded(date, w.2);
    let msg = match e.meta.message {
        Some(m) => m@,
        None => seq!['-'],
    };
    let p0 = padded(e.workspace@, w.0);
    let p1 = padded(id, w.1);
    let p2 = padded(date, w.2);
    let t = p0 + " "@ + p1 + " "@ + p2 + " "@ + msg;
    assert(t =~= (p0 + " "@) + (p1 + " "@) + (p2 + " "@) + msg);
    assert(t =~= e.workspace@ + a + e.id@ + mark + b + date + c + msg);
    assert(is_gap(a) && is_gap(b) && is_gap(c));
}

/// A list shows every entry on a row of its own, in order, and counts them.
pub proof fn lemma_lists_show_every_entry(
    snapshots: Vec<SnapshotEntry>,
    dates: Vec<String>,
    offset_secs: i32,
    r: Vec<Line>,
)
    requires
        dates@.len() == snapshots@.len(),
        call_ensures(show_list, (&snapshots, &dates, offset_secs), r),
    ensures
        snapshots@.len() == 0 ==> r@.len() == 1,
        snapshots@.len() > 0 ==> {
            &&& r@.len() == snapshots@.len() + 3
            &&& holds(r@.last().text@, decimal(snapshots@.len()))
            &&& forall|i: int|
                #![trigger snapshots@[i]]
                0 <= i < snapshots@.len() ==> shows_entry(
                    r@[i + 2]@,
                    snapshots@[i],
                    dates@[i]@,
                )
        },
{
    let v = line_views(r@);
    let l = entry_views(snapshots@);
    let ds = texts(dates@);
    let w = crate::render::table_widths(l, offset_secs);
    assert(v.len() == r@.len());
    assert(l.len() == snapshots@.len());
    if snapshots@.len() > 0 {
        let n = snapshots@.len() as int;
        assert(v[n + 2] == r@[n + 2]@);
        lemma_stands(r@.last().text@, "\nTotal: "@, decimal(n as nat), " snapshot(s)"@);
        assert forall|i: int| #![trigger snapshots@[i]] 0 <= i < n implies shows_entry(
            r@[i + 2]@,
            snapshots@[i],
            dates@[i]@,
        ) by {
            assert(v[i + 2] == r@[i + 2]@);
            assert(l[i] == snapshots@[i]@);
            assert(ds[i] == dates@[i]@);
            lemma_row(w, snapshots@[i], dates@[i]@);
        }
    }
}

/// Whether a line of standard output shows a workspace: its identifier, its path and the number of
/// its snapshots, in that order and set apart by spaces.
pub open spec fn shows_workspace(l: LineView, w: WorkspaceInfo) -> bool {
    !l.to_stderr && exists|a: Seq<char>, b: Seq<char>|
        #![trigger is_gap(a), is_gap(b)]
        is_gap(a) && is_gap(b) && l.text == seq![' ', ' '] + w.ws_id@ + a + w.path@ + b + decimal(
            w.snapshot_count as nat,
        )
}

/// A status shows the uptime, the usage, and every workspace with its identifier, path and number
/// of snapshots, in that order; and counts them.
pub proof fn lemma_status_shows_every_workspace(
    report: StatusReport,
    usage: &str,
    r: Vec<Line>,
)
    requires
        call_ensures(show_status, (&report, usage), r),
    ensures
        r@.len() >= 5,
        holds(r@[1].text@, decimal(report.uptime_secs as nat)),
        holds(r@[2].text@, usage@),
        report.workspaces@.len() == 0 ==> r@.len() == 5,
        report.workspaces@.len() > 0 ==> {
            &&& r@.len() == report.workspaces@.len() + 7
            &&& holds(r@.last().text@, decimal(report.workspaces@.len()))
            &&& forall|i: int|
                #![trigger report.workspaces@[i]]
                0 <= i < report.workspaces@.len() ==> shows_workspace(
                    r@[i + 6]@,
                    report.workspaces@[i],
                )
        },
{
    let v = line_views(r@);
    assert(v.len() == r@.len());
    assert(v[1] == r@[1]@);
    assert(v[2] == r@[2]@);
    lemma_stands(r@[1].text@, "  Uptime: "@, decimal(report.uptime_secs as nat), " seconds"@);
    lemma_stands(r@[2].text@, "  Filesystem: "@, usage@, seq![]);
    let n = report.workspaces@.len() as int;
    if n > 0 {
        assert(v[n + 6] == r@[n + 6]@);
        lemma_stands(r@.last().text@, "\n  Total: "@, decimal(n as nat), " workspace(s)"@);
        assert forall|i: int| #![trigger report.workspaces@[i]] 0 <= i < n implies shows_workspace(
            r@[i + 6]@,
            report.workspaces@[i],
        ) by {
            let w = report.workspaces@[i];
            assert(v[i + 6] == r@[i + 6]@);
            assert(v[i + 6] == crate::render::status_line(w));
            reveal_strlit("  ");
            assert("  "@ =~= seq![' ', ' ']);
            let a = lemma_padded(w.ws_id@, 25);
            let b = lemma_padded(w.path@, 40);
            let c = decimal(w.snapshot_count as nat);
            let p0 = padded(w.ws_id@, 25);
            let p1 = padded(w.path@, 40);
            assert(r@[i + 6].text@ =~= "  "@ + (p0 + " "@) + (p1 + " "@) + c);
            assert(r@[i + 6].text@ =~= seq![' ', ' '] + w.ws_id@ + a + w.path@ + b + c);
        }
    }
}

/// A cleanup shows what was removed, in order, and how many.
pub proof fn lemma_cleanups_show_what_was_removed(removed: Vec<String>, r: Vec<Line>)
    requires
        call_ensures(show_cleanup, (&removed,), r),
    ensures
        r@.len() == removed@.len() + 1,
        forall|i: int| 0 <= i < r@.len() ==> !(#[trigger] r@[i]).to_stderr,
        removed@.len() > 0 ==> holds(r@[0].text@, decimal(removed@.len())),
        forall|i: int|
            #![trigger removed@[i]]
            0 <= i < removed@.len() ==> {
                let t = r@[i + 1].text@;
                t.len() == 4 + removed@[i]@.len() && stands_at(t, 4, removed@[i]@)
            },
{
    let v = line_views(r@);
    let l = texts(removed@);
    assert(l.len() == removed@.len());
    assert(v.len() == r@.len());
    assert forall|i: int| 0 <= i < r@.len() implies !(#[trigger] r@[i]).to_stderr by {
        assert(v[i] == r@[i]@);
    }
    if l.len() > 0 {
        assert(v[0] == r@[0]@);
        let p = "\x1b[32m\u{2713} "@ + "Cleaned up "@;
        lemma_stands(r@[0].text@, p, decimal(l.len()), " snapshot(s):"@ + "\x1b[0m"@);
        assert forall|i: int| #![trigger removed@[i]] 0 <= i < removed@.len() implies ({
            let t = r@[i + 1].text@;
            t.len() == 4 + removed@[i]@.len() && stands_at(t, 4, removed@[i]@)
        }) by {
            reveal_strlit("  - ");
            assert(v[i + 1] == r@[i + 1]@);
            assert(l[i] == removed@[i]@);
            lemma_stands(r@[i + 1].text@, "  - "@, removed@[i]@, seq![]);
        }
    }
}

proof fn lemma_code_text(a: ErrorCode, x: Seq<char>)
    requires
        x == crate::render::code_text(a),
    ensures
        a is WorkspaceNotFound <==> x.len() == 17 && x[0] == 'W' && x[1] == 'o',
        a is SnapshotNotFound <==> x.len() == 16,
        a is AlreadyInitialized <==> x.len() == 18 && x[0] == 'A',
        a is BtrfsError <==> x.len() == 10,
        a is IoError <==> x.len() == 7,
        a is InvalidPath <==> x.len() == 11 && x[0] == 'I',
        a is ConfirmationRequired <==> x.len() == 20,
        a is InternalError <==> x.len() == 13 && x[0] == 'I',
        a is SnapshotAlreadyExists <==> x.len() == 21 && x[0] == 'S',
        a is WriteLockConflict <==> x.len() == 17 && x[0] == 'W' && x[1] == 'r',
        a is DiskSpaceInsufficient <==> x.len() == 21 && x[0] == 'D',
        a is CwdOccupied <==> x.len() == 11 && x[0] == 'C',
        a is CwdScanFailed <==> x.len() == 13 && x[0] == 'C',
        a is InvalidListRequest <==> x.len() == 18 && x[0] == 'I',
        a is InvalidListCursor <==> x.len() == 17 && x[0] == 'I',
        a is ListEntryTooLarge <==> x.len() == 17 && x[0] == 'L',
{
    reveal_strlit("WorkspaceNotFound");
    reveal_strlit("SnapshotNotFound");
    reveal_strlit("AlreadyInitialized");
    reveal_strlit("BtrfsError");
    reveal_strlit("IoError");
    reveal_strlit("InvalidPath");
    reveal_strlit("ConfirmationRequired");
    reveal_strlit("InternalError");
    reveal_strlit("SnapshotAlreadyExists");
    reveal_strlit("WriteLockConflict");
    reveal_strlit("DiskSpaceInsufficient");
    reveal_strlit("CwdOccupied");
    reveal_strlit("CwdScanFailed");
    reveal_strlit("InvalidListRequest");
    reveal_strlit("InvalidListCursor");
    reveal_strlit("ListEntryTooLarge");
}

/// The names of error codes: each tells its code from every other.
pub proof fn lemma_codes_have_names(
    a: ErrorCode,
    b: ErrorCode,
    x: &'static str,
    y: &'static str,
)
    requires
        call_ensures(code_name, (a,), x),
        call_ensures(code_name, (b,), y),
    ensures
        x@ == y@ <==> a == b,
        a is WorkspaceNotFound <==> x@.len() == 17 && x@[0] == 'W' && x@[1] == 'o',
        a is SnapshotNotFound <==> x@.len() == 16,
        a is AlreadyInitialized <==> x@.len() == 18 && x@[0] == 'A',
        a is BtrfsError <==> x@.len() == 10,
        a is IoError <==> x@.len() == 7,
        a is InvalidPath <==> x@.len() == 11 && x@[0] == 'I',
        a is ConfirmationRequired <==> x@.len() == 20,
        a is InternalError <==> x@.len() == 13 && x@[0] == 'I',
        a is SnapshotAlreadyExists <==> x@.len() == 21 && x@[0] == 'S',
        a is WriteLockConflict <==> x@.len() == 17 && x@[0] == 'W' && x@[1] == 'r',
        a is DiskSpaceInsufficient <==> x@.len() == 21 && x@[0] == 'D',
        a is CwdOccupied <==> x@.len() == 11 && x@[0] == 'C',
        a is CwdScanFailed <==> x@.len() == 13 && x@[0] == 'C',
        a is InvalidListRequest <==> x@.len() == 18 && x@[0] == 'I',
        a is InvalidListCursor <==> x@.len() == 17 && x@[0] == 'I',
        a is ListEntryTooLarge <==> x@.len() == 17 && x@[0] == 'L',
{
    lemma_code_text(a, x@);
    lemma_code_text(b, y@);
}

/// A flag is shown by its name.
pub proof fn lemma_flags_are_shown(b: bool, r: &'static str)
    requires
        call_ensures(flag_shown, (b,), r),
    ensures
        b ==> r@ == seq!['t', 'r', 'u', 'e'],
        !b ==> r@ == seq!['f', 'a', 'l', 's', 'e'],
{
    reveal_strlit("true");
    reveal_strlit("false");
    assert("true"@ =~= seq!['t', 'r', 'u', 'e']);
    assert("false"@ =~= seq!['f', 'a', 'l', 's', 'e']);
}

/// A success goes to standard output and names what was done; an error goes to standard error
/// with its message, and fails the command unless it asks for a confirmation. Nothing else fails
/// or asks.
pub proof fn lemma_responses_are_shown(response: Response, r: Shown)
    requires
        call_ensures(show_response, (&response,), r),
    ensures
        r.lines@.len() > 0,
        r.next is Confirm <==> (response matches Response::Error { code, .. } && code
            == ErrorCode::ConfirmationRequired),
        r.next is Fail <==> (response matches Response::Error { code, .. } && code
            != ErrorCode::ConfirmationRequired),
        response matches Response::InitOk { ws_id } ==> holds(r.lines@[0].text@, ws_id@),
        response matches Response::CheckpointOk { snapshot_id } ==> holds(
            r.lines@[0].text@,
            snapshot_id@,
        ),
        response matches Response::RollbackOk { from, to } ==> (exists|i: int, j: int|
            #![trigger stands_at(r.lines@[0].text@, i, from@), stands_at(r.lines@[0].text@, j, to@)]
            stands_at(r.lines@[0].text@, i, from@) && stands_at(r.lines@[0].text@, j, to@) && i
                + from@.len() < j),
        response matches Response::DeleteOk { target } ==> holds(r.lines@[0].text@, target@),
        response matches Response::RecoverOk { workspace } ==> holds(
            r.lines@[0].text@,
            workspace@,
        ),
        response matches Response::CheckpointSkipped { reason } ==> holds(
            r.lines@[0].text@,
            reason@,
        ),
        response matches Response::Error { message, .. } ==> holds(r.lines@[0].text@, message@),
        response is InitOk || response is CheckpointOk || response is RollbackOk || response
            is DeleteOk || response is RecoverOk <==> !r.lines@[0].to_stderr,
{
    let v = line_views(r.lines@);
    assert(v.len() == r.lines@.len());
    assert(v[0] == r.lines@[0]@);
    let t = r.lines@[0].text@;
    let o = "\x1b[32m\u{2713} "@;
    let w = "\x1b[33m\u{26a0} "@;
    let z = "\x1b[0m"@;
    match response {
        Response::InitOk { ws_id } => {
            lemma_stands(t, o + "Workspace initialized: "@, ws_id@, z);
        },
        Response::CheckpointOk { snapshot_id } => {
            lemma_stands(t, o + "Checkpoint created: "@, snapshot_id@, z);
        },
        Response::RollbackOk { from, to } => {
            reveal_strlit(" to snapshot: ");
            let p = o + "Rolled back workspace "@;
            lemma_stands(t, p, from@, " to snapshot: "@ + to@ + z);
            lemma_stands(t, p + from@ + " to snapshot: "@, to@, z);
        },
        Response::DeleteOk { target } => {
            lemma_stands(t, o + "Deleted: "@, target@, z);
        },
        Response::RecoverOk { workspace } => {
            lemma_stands(t, o + "Workspace recovered: "@, workspace@, z);
        },
        Response::CheckpointSkipped { reason } => {
            lemma_stands(t, w, reason@, z);
        },
        Response::Error { code, message } => {
            if code == ErrorCode::ConfirmationRequired {
                lemma_stands(t, w, message@, z);
            } else if crate::render::advice(code).len() == 0 {
                lemma_stands(
                    t,
                    "\x1b[31mError ["@ + crate::render::code_text(code) + "]: "@,
                    message@,
                    z,
                );
            } else {
                lemma_stands(t, "\x1b[31m\u{2717} "@, message@, z);
            }
        },
        _ => {},
    }
}

/// A query that is refused fails with the code's name and the message, on standard error.
pub proof fn lemma_failures_are_shown(
    response: Response,
    name: &'static str,
    r: Shown,
)
    requires
        call_ensures(show_failure, (&response,), r),
        response matches Response::Error { code, .. } ==> call_ensures(code_name, (code,), name),
    ensures
        r.lines@.len() == 1,
        r.lines@[0].to_stderr,
        r.next is Fail <==> response is Error,
        !(r.next is Confirm),
        response matches Response::Error { message, .. } ==> holds(r.lines@[0].text@, message@)
            && holds(r.lines@[0].text@, name@),
{
    let v = line_views(r.lines@);
    assert(v.len() == r.lines@.len());
    assert(v[0] == r.lines@[0]@);
    let t = r.lines@[0].text@;
    if let Response::Error { code, message } = response {
        let n = crate::render::code_text(code);
        lemma_stands(t, "\x1b[31mError ["@ + n + "]: "@, message@, "\x1b[0m"@);
        lemma_stands(t, "\x1b[31mError ["@, n, "]: "@ + message@ + "\x1b[0m"@);
    }
}

/// The message of a refusal says what failed, names the code and ends with the message.
pub proof fn lemma_refusals_say_why(
    what: &str,
    code: ErrorCode,
    message: &str,
    name: &'static str,
    r: String,
)
    requires
        call_ensures(refusal_text, (what, code, message), r),
        call_ensures(code_name, (code,), name),
    ensures
        stands_at(r@, 0, what@),
        stands_at(r@, what@.len() as int + 1, name@),
        stands_at(r@, r@.len() - message@.len(), message@),
{
    reveal_strlit("[");
    let n = name@;
    let m = if what@.len() > 0 {
        ": "@
    } else {
        " "@
    };
    lemma_stands(r@, seq![], what@, "["@ + n + "]"@ + m + message@);
    lemma_stands(r@, what@ + "["@, n, "]"@ + m + message@);
    lemma_stands(r@, what@ + "["@ + n + "]"@ + m, message@, seq![]);
}

/// A view is called stale exactly where the reload before it failed.
pub proof fn lemma_stale_views_are_told(reply: Response, r: Option<String>)
    requires
        call_ensures(stale_view_warning, (&reply,), r),
    ensures
        r is Some <==> reply is Error,
        reply matches Response::Error { message, .. } ==> holds(r->0@, message@),
{
    if let Response::Error { message, .. } = reply {
        lemma_stands(
            r->0@,
            "\x1b[33m\u{26a0} View may be stale: daemon reload failed: "@,
            message@,
            "\x1b[0m"@,
        );
    }
}

/// A policy is shown field by field: what is in force, then the workspace's own setting, or that
/// it inherits, then the global one.
pub proof fn lemma_policies_are_shown(
    ws_id: &str,
    effective: EffectivePolicy,
    local: WorkspacePolicy,
    global: GlobalPolicySnapshot,
    r: Vec<Line>,
)
    requires
        call_ensures(show_policy, (ws_id, &effective, &local, &global), r),
    ensures
        r@.len() == 4,
        holds(r@[0].text@, ws_id@),
        field_shown(
            r@[1].text@,
            if effective@.auto_cleanup {
                "true"@
            } else {
                "false"@
            },
            match local@.auto_cleanup {
                Some(b) => if b {
                    "true"@
                } else {
                    "false"@
                },
                None => "(inherit)"@,
            },
            if global@.auto_cleanup {
                "true"@
            } else {
                "false"@
            },
        ),
        field_shown(
            r@[2].text@,
            effective@.auto_cleanup_keep.text(),
            match local@.auto_cleanup_keep {
                Some(k) => k.text(),
                None => "(inherit)"@,
            },
            global@.auto_cleanup_keep.text(),
        ),
{
    let v = line_views(r@);
    assert(v.len() == r@.len());
    assert(v[0] == r@[0]@);
    assert(v[1] == r@[1]@);
    assert(v[2] == r@[2]@);
    lemma_stands(r@[0].text@, "\x1b[1mWorkspace policy: "@, ws_id@, "\x1b[0m"@);
    lemma_field_shown(
        "auto_cleanup"@,
        crate::render::flag_text(effective@.auto_cleanup),
        match local@.auto_cleanup {
            Some(b) => Some(crate::render::flag_text(b)),
            None => None,
        },
        crate::render::flag_text(global@.auto_cleanup),
    );
    lemma_field_shown(
        "auto_cleanup_keep"@,
        effective@.auto_cleanup_keep.text(),
        match local@.auto_cleanup_keep {
            Some(k) => Some(k.text()),
            None => None,
        },
        global@.auto_cleanup_keep.text(),
    );
}

/// Whether a line shows three values behind the words for what is in force, what is local and
/// what is global, in that order.
pub open spec fn field_shown(
    t: Seq<char>,
    effective: Seq<char>,
    local: Seq<char>,
    global: Seq<char>,
) -> bool {
    exists|a: Seq<char>, b: Seq<char>, c: Seq<char>|
        #![trigger is_gap(b), is_gap(c), a.len()]
        is_gap(b) && is_gap(c) && t == a + "effective="@ + effective + b + "local="@ + local + c
            + "global="@ + global
}

proof fn lemma_field_shown(
    name: Seq<char>,
    effective: Seq<char>,
    local: Option<Seq<char>>,
    global: Seq<char>,
)
    ensures
        field_shown(
            crate::render::policy_field(name, effective, local, global).text,
            effective,
            match local {
                Some(s) => s,
                None => "(inherit)"@,
            },
            global,
        ),
{
    reveal_strlit(" effective=");
    reveal_strlit("effective=");
    reveal_strlit(" local=");
    reveal_strlit("local=");
    reveal_strlit(" global=");
    reveal_strlit("global=");
    reveal_strlit(" ");
    let l = match local {
        Some(s) => s,
        None => "(inherit)"@,
    };
    assert(" effective="@ =~= " "@ + "effective="@);
    assert(" local="@ =~= " "@ + "local="@);
    assert(" global="@ =~= " "@ + "global="@);
    let a = "  "@ + padded(name, 22) + " "@;
    let pe = padded(effective, 14);
    let pl = padded(l, 14);
    let b = lemma_padded(effective, 14);
    let c = lemma_padded(l, 14);
    let t = crate::render::policy_field(name, effective, local, global).text;
    assert(t =~= a + "effective="@ + (pe + " "@) + "local="@ + (pl + " "@) + "global="@ + global);
    assert(t =~= a + "effective="@ + effective + b + "local="@ + l + c + "global="@ + global);
    assert(a.len() >= 0 && is_gap(b) && is_gap(c));
}

proof fn lemma_interval_line(prefix: Seq<char>, n: u64, is_default: bool)
    ensures
        ({
            let t = prefix + crate::render::interval_text(n) + crate::render::default_mark(
                is_default,
            );
            &&& ends_as_default(t) <==> is_default
            &&& holds(t, decimal(n as nat))
        }),
{
    reveal_strlit("m)");
    let i = crate::render::interval_text(n);
    let d = crate::render::default_mark(is_default);
    lemma_mark(prefix + i, is_default);
    let tail = "s ("@ + decimal((n / 60) as nat) + "m)"@ + d;
    lemma_stands(prefix + i + d, prefix, decimal(n as nat), tail);
}

proof fn lemma_cleanup_line(on: bool, is_default: bool)
    ensures
        ({
            let t = "  Auto-cleanup:            "@ + crate::render::enabled_text(on)
                + crate::render::default_mark(is_default);
            &&& ends_as_default(t) <==> is_default
            &&& !is_default && on ==> ends_with(t, seq![' ', 'e', 'n', 'a', 'b', 'l', 'e', 'd'])
            &&& !is_default && !on ==> ends_with(
                t,
                seq![' ', 'd', 'i', 's', 'a', 'b', 'l', 'e', 'd'],
            )
        }),
{
    reveal_strlit("enabled");
    reveal_strlit("disabled");
    reveal_strlit("");
    reveal_strlit("  Auto-cleanup:            ");
    let s = "  Auto-cleanup:            "@ + crate::render::enabled_text(on);
    lemma_mark(s, is_default);
    if !is_default {
        let t = s + crate::render::default_mark(is_default);
        assert(t =~= s);
        if on {
            assert(t.skip(t.len() - 8) =~= seq![' ', 'e', 'n', 'a', 'b', 'l', 'e', 'd']);
        } else {
            assert(t.skip(t.len() - 9) =~= seq![' ', 'd', 'i', 's', 'a', 'b', 'l', 'e', 'd']);
        }
    }
}

proof fn lemma_keep_line(k: crate::retention::RetentionView, is_default: bool)
    ensures
        ends_as_default(
            "  Auto-cleanup keep:       "@ + crate::render::keep_mode_text(k)
                + crate::render::default_mark(is_default),
        ) <==> is_default,
{
    reveal_strlit(" (count mode)");
    reveal_strlit("\" (age mode)");
    lemma_mark(
        "  Auto-cleanup keep:       "@ + crate::render::keep_mode_text(k),
        is_default,
    );
}

proof fn lemma_size_line(n: nat, is_default: bool)
    ensures
        ({
            let t = "  Image size:              "@ + decimal(n) + " GB"@
                + crate::render::default_mark(is_default);
            &&& ends_as_default(t) <==> is_default
            &&& holds(t, decimal(n))
        }),
{
    reveal_strlit(" GB");
    let p = "  Image size:              "@;
    let d = crate::render::default_mark(is_default);
    lemma_mark(p + decimal(n) + " GB"@, is_default);
    lemma_stands(p + decimal(n) + " GB"@ + d, p, decimal(n), " GB"@ + d);
}

proof fn lemma_percent_line(percent: Seq<char>, is_default: bool)
    ensures
        ({
            let t = "  Image max percent:       "@ + percent + "%"@ + crate::render::default_mark(
                is_default,
            );
            &&& ends_as_default(t) <==> is_default
            &&& holds(t, percent)
        }),
{
    reveal_strlit("%");
    reveal_strlit("  Image max percent:       ");
    let p = "  Image max percent:       "@;
    let d = crate::render::default_mark(is_default);
    lemma_mark(p + percent + "%"@, is_default);
    lemma_stands(p + percent + "%"@ + d, p, percent, "%"@ + d);
}

/// A setting of the global configuration is called a default exactly where the file does not set
/// it.
pub proof fn lemma_defaults_are_marked(fc: FileConfig, percent: &str, r: Vec<Line>)
    requires
        call_ensures(show_global_config, (&fc, percent), r),
    ensures
        r@.len() == 10,
        holds(r@[9].text@, percent@),
        ends_as_default(r@[4].text@) <==> fc.auto_cleanup is None,
        ends_as_default(r@[5].text@) <==> fc.auto_cleanup_keep is None,
        ends_as_default(r@[6].text@) <==> fc.auto_cleanup_interval_secs is None,
        ends_as_default(r@[7].text@) <==> fc.health_check_interval_secs is None,
        ends_as_default(r@[8].text@) <==> fc.set_img_size() is None,
        ends_as_default(r@[9].text@) <==> fc.set_img_max_percent() is None,
        fc.auto_cleanup matches Some(b) ==> (if b {
            ends_with(r@[4].text@, seq![' ', 'e', 'n', 'a', 'b', 'l', 'e', 'd'])
        } else {
            ends_with(r@[4].text@, seq![' ', 'd', 'i', 's', 'a', 'b', 'l', 'e', 'd'])
        }),
        fc.auto_cleanup_interval_secs matches Some(n) ==> holds(r@[6].text@, decimal(n as nat)),
        fc.health_check_interval_secs matches Some(n) ==> holds(r@[7].text@, decimal(n as nat)),
        fc.set_img_size() matches Some(n) ==> holds(r@[8].text@, decimal(n as nat)),
{
    let v = line_views(r@);
    assert(v.len() == r@.len());
    assert(v[4] == r@[4]@);
    assert(v[5] == r@[5]@);
    assert(v[6] == r@[6]@);
    assert(v[7] == r@[7]@);
    assert(v[8] == r@[8]@);
    assert(v[9] == r@[9]@);
    lemma_cleanup_line(fc.effective_auto_cleanup(), fc.auto_cleanup is None);
    lemma_keep_line(fc.effective_keep(), fc.auto_cleanup_keep is None);
    lemma_interval_line(
        "  Auto-cleanup interval:   "@,
        fc.effective_cleanup_interval(),
        fc.auto_cleanup_interval_secs is None,
    );
    lemma_interval_line(
        "  Health-check interval:   "@,
        fc.effective_health_interval(),
        fc.health_check_interval_secs is None,
    );
    lemma_size_line(fc.effective_img_size() as nat, fc.set_img_size() is None);
    lemma_percent_line(percent@, fc.set_img_max_percent() is None);
}

/// Whether a text ends with another one.
pub open spec fn ends_with(s: Seq<char>, t: Seq<char>) -> bool {
    s.len() >= t.len() && s.skip(s.len() - t.len()) == t
}

/// Whether a line ends by saying that it shows a default.
pub open spec fn ends_as_default(s: Seq<char>) -> bool {
    ends_with(s, seq![' ', '(', 'd', 'e', 'f', 'a', 'u', 'l', 't', ')'])
}

proof fn lemma_mark(s: Seq<char>, is_default: bool)
    requires
        s.len() >= 2,
        s.last() != ')' || s[s.len() - 2] != 't',
    ensures
        ends_as_default(s + crate::render::default_mark(is_default)) <==> is_default,
{
    reveal_strlit(" (default)");
    reveal_strlit("");
    let d = seq![' ', '(', 'd', 'e', 'f', 'a', 'u', 'l', 't', ')'];
    assert(" (default)"@ =~= d);
    let t = s + crate::render::default_mark(is_default);
    if is_default {
        assert(t.skip(t.len() - 10) =~= d);
    } else {
        assert(t =~= s);
        if ends_as_default(t) {
            assert(t.skip(t.len() - 10)[9] == t[t.len() - 1]);
            assert(t.skip(t.len() - 10)[8] == t[t.len() - 2]);
            assert(false);
        }
    }
}

/// An overview shows what the daemon reports, and accounts for every workspace.
pub proof fn lemma_overviews_are_shown(
    c: ConfigReport,
    total: usize,
    with_override: usize,
    percent: &str,
    rest: usize,
    r: Vec<Line>,
)
    requires
        call_ensures(show_overview, (&c, total, with_override, percent), r),
        call_ensures(inherit_count, (total, with_override), rest),
    ensures
        r@.len() == (if with_override > 0 {
            16int
        } else {
            15
        }),
        with_override <= total ==> rest + with_override == total,
        with_override > total ==> rest == 0,
        ends_with(r@[2].text@, c.mount_path@),
        ends_with(r@[3].text@, c.socket_path@),
        c.auto_cleanup ==> ends_with(r@[4].text@, seq![' ', 'e', 'n', 'a', 'b', 'l', 'e', 'd']),
        !c.auto_cleanup ==> ends_with(
            r@[4].text@,
            seq![' ', 'd', 'i', 's', 'a', 'b', 'l', 'e', 'd'],
        ),
        ends_with(r@[5].text@, c.auto_cleanup_keep@.text()),
        holds(r@[6].text@, decimal(c.auto_cleanup_interval_secs as nat)),
        holds(r@[7].text@, decimal(c.health_check_interval_secs as nat)),
        holds(r@[8].text@, decimal(c.img_size as nat)),
        holds(r@[9].text@, percent@),
        ends_with(r@[12].text@, decimal(total as nat)),
        ends_with(r@[13].text@, decimal(with_override as nat)),
        ends_with(r@[14].text@, decimal(rest as nat)),
{
    let v = line_views(r@);
    assert(v.len() == r@.len());
    assert(v[2] == r@[2]@);
    assert(v[3] == r@[3]@);
    assert(v[4] == r@[4]@);
    assert(v[5] == r@[5]@);
    assert(v[6] == r@[6]@);
    assert(v[7] == r@[7]@);
    assert(v[8] == r@[8]@);
    assert(v[9] == r@[9]@);
    assert(v[12] == r@[12]@);
    assert(v[13] == r@[13]@);
    assert(v[14] == r@[14]@);
    reveal_strlit("enabled");
    reveal_strlit("disabled");
    reveal_strlit("  Auto-cleanup:            ");
    let e = crate::render::enabled_text(c.auto_cleanup);
    let k = c.auto_cleanup_keep@.text();
    assert(r@[2].text@.skip("  Mount path:              "@.len() as int) =~= c.mount_path@);
    assert(r@[3].text@.skip("  Socket path:             "@.len() as int) =~= c.socket_path@);
    assert(r@[5].text@.skip("  Auto-cleanup keep:       "@.len() as int) =~= k);
    let t = r@[4].text@;
    if c.auto_cleanup {
        assert(t.skip(t.len() - 8) =~= seq![' ', 'e', 'n', 'a', 'b', 'l', 'e', 'd']);
    } else {
        assert(t.skip(t.len() - 9) =~= seq![' ', 'd', 'i', 's', 'a', 'b', 'l', 'e', 'd']);
    }
    let a = c.auto_cleanup_interval_secs;
    lemma_stands(
        r@[6].text@,
        "  Auto-cleanup interval:   "@,
        decimal(a as nat),
        "s ("@ + decimal((a / 60) as nat) + "m)"@,
    );
    let h = c.health_check_interval_secs;
    lemma_stands(
        r@[7].text@,
        "  Health-check interval:   "@,
        decimal(h as nat),
        "s ("@ + decimal((h / 60) as nat) + "m)"@,
    );
    lemma_stands(r@[8].text@, "  Image size:              "@, decimal(c.img_size as nat), " GB"@);
    lemma_stands(r@[9].text@, "  Image max percent:       "@, percent@, "%"@);
    let d = decimal(total as nat);
    assert(r@[12].text@.skip("  Total:                   "@.len() as int) =~= d);
    let d = decimal(with_override as nat);
    assert(r@[13].text@.skip("  With local override:     "@.len() as int) =~= d);
    let d = decimal(rest as nat);
    assert(r@[14].text@.skip("  Inherit global:          "@.len() as int) =~= d);
}

/// A health advisory is silent exactly where there is nothing to warn of; otherwise it goes to
/// standard error, with the number of workspaces and the warning about the file system.
pub proof fn lemma_advisories_warn(count: u32, fs_warning: Option<String>, r: Vec<Line>)
    requires
        call_ensures(show_advisory, (count, &fs_warning), r),
    ensures
        r@.len() == 0 <==> count == 0 && fs_warning is None,
        forall|i: int| 0 <= i < r@.len() ==> (#[trigger] r@[i]).to_stderr,
        count > 0 ==> holds(r@[1].text@, decimal(count as nat)),
        fs_warning matches Some(m) ==> holds(
            r@[if count > 0 {
                2int
            } else {
                1
            }].text@,
            m@,
        ),
        r@.len() > 0 ==> r@.len() == 9 + (if count > 0 {
            1int
        } else {
            0
        }) + (if fs_warning is Some {
            1int
        } else {
            0
        }),
{
    let v = line_views(r@);
    assert(v.len() == r@.len());
    assert forall|i: int| 0 <= i < r@.len() implies (#[trigger] r@[i]).to_stderr by {
        assert(v[i] == r@[i]@);
    }
    if count > 0 {
        assert(v[1] == r@[1]@);
        lemma_stands(
            r@[1].text@,
            "\x1b[33m\u{26a0} Warning: "@,
            decimal(count as nat),
            " workspace(s) have more than "@ + decimal(
                crate::message::ADVISORY_SNAPSHOT_LIMIT as nat,
            ) + " snapshots. Run `ws-ckpt status` to see details"@ + ".\x1b[0m"@,
        );
    }
    if let Some(m) = fs_warning {
        let i: int = if count > 0 {
            2
        } else {
            1
        };
        assert(v[i] == r@[i]@);
        lemma_stands(r@[i].text@, "\x1b[33m\u{26a0} Warning: "@, m@, ".\x1b[0m"@);
    }
}

/// Whether a response holds what a query asked for.
pub open spec fn is_reply_to(response: Response, request: Request) -> bool {
    ||| request is List && response is ListOk
    ||| request is Status && response is StatusOk
    ||| request is Diff && response is DiffOk
    ||| request is RollbackPreview && response is RollbackPreviewOk
    ||| request is Cleanup && response is CleanupOk
}

/// JSON is given for lists and status reports that asked for it, and for nothing else. A command
/// fails exactly where the daemon answered with an error that does not ask for a confirmation, and
/// a query whose answer is not what was asked for never asks for one.
pub proof fn lemma_answers_follow_the_response(
    request: Request,
    response: Response,
    json_wanted: bool,
    dates: Vec<String>,
    offset_secs: i32,
    usage: &str,
    r: Answer,
)
    requires
        call_ensures(
            show_answer,
            (&request, &response, json_wanted, &dates, offset_secs, usage),
            r,
        ),
    ensures
        r is Json <==> json_wanted && (request is List || request is Status) && is_reply_to(
            response,
            request,
        ),
        r is Refuse <==> request is ReloadConfig && response is Error,
        r is Unexpected <==> request is ReloadConfig && !(response is Error)
            && !(response is ReloadConfigOk),
        r matches Answer::Refuse(m) ==> (response matches Response::Error { message, .. }
            && holds(m@, message@)),
        r matches Answer::Print(s) ==> {
            &&& s.next is Fail ==> response is Error
            &&& response matches Response::Error { code, .. } ==> (s.next is Confirm
                <==> code == ErrorCode::ConfirmationRequired && !(request is List || request
                is Status || request is Diff || request is RollbackPreview || request is Cleanup))
            &&& response matches Response::Error { .. } ==> s.next is Fail || s.next is Confirm
            &&& !(response is Error) ==> s.next is Done
        },
{
    if let (Request::ReloadConfig, Response::Error { code, message }) = (request, response) {
        let w = "Daemon reload failed "@;
        reveal_strlit("Daemon reload failed ");
        let p = w + "["@ + crate::render::code_text(code) + "]"@ + ": "@;
        lemma_stands(r->Refuse_0@, p, message@, seq![]);
    }
}

/// A list that is not given in JSON is shown as lists are shown, and so are the answers to the
/// other queries.
pub proof fn lemma_answers_show_what_was_asked(
    request: Request,
    response: Response,
    dates: Vec<String>,
    offset_secs: i32,
    usage: &str,
    r: Answer,
    lines: Vec<Line>,
)
    requires
        call_ensures(show_answer, (&request, &response, false, &dates, offset_secs, usage), r),
        is_reply_to(response, request),
        match response {
            Response::ListOk { snapshots } => dates@.len() == snapshots@.len() && call_ensures(
                show_list,
                (&snapshots, &dates, offset_secs),
                lines,
            ),
            Response::StatusOk { report } => call_ensures(show_status, (&report, usage), lines),
            Response::DiffOk { changes } => call_ensures(show_diff, (&changes,), lines),
            Response::RollbackPreviewOk { to, changes } => exists|t: &str|
                t@ == to@ && call_ensures(show_rollback_preview, (t, &changes), lines),
            Response::CleanupOk { removed } => call_ensures(show_cleanup, (&removed,), lines),
            _ => true,
        },
    ensures
        r matches Answer::Print(s) && line_views(s.lines@) == line_views(lines@) && s.next is Done,
{
}

/// An error is shown with what to do about it, where there is something to do: the advice goes with
/// its code, and with no other.
pub proof fn lemma_advice_goes_with_the_code(response: Response, r: Shown)
    requires
        call_ensures(show_response, (&response,), r),
    ensures
        response matches Response::Error { code, .. } ==> {
            let l = r.lines@;
            &&& forall|i: int| 0 <= i < l.len() ==> (#[trigger] l[i]).to_stderr
            &&& l.len() == (if code == ErrorCode::CwdOccupied {
                3int
            } else if code == ErrorCode::SnapshotAlreadyExists || code
                == ErrorCode::DiskSpaceInsufficient || code == ErrorCode::SnapshotNotFound || code
                == ErrorCode::WorkspaceNotFound || code == ErrorCode::CwdScanFailed {
                2
            } else {
                1
            })
            &&& code == ErrorCode::SnapshotAlreadyExists ==> holds(
                l[1].text@,
                "different snapshot ID"@,
            )
            &&& code == ErrorCode::DiskSpaceInsufficient ==> holds(
                l[1].text@,
                "'ws-ckpt delete'"@,
            )
            &&& code == ErrorCode::SnapshotNotFound ==> holds(l[1].text@, "'ws-ckpt list'"@)
                && holds(l[1].text@, "available snapshots"@)
            &&& code == ErrorCode::WorkspaceNotFound ==> holds(l[1].text@, "'ws-ckpt init'"@)
            &&& code == ErrorCode::CwdOccupied ==> holds(l[1].text@, "PID"@)
            &&& code == ErrorCode::CwdScanFailed ==> holds(l[1].text@, "retry"@)
        },
{
    if let Response::Error { code, message } = response {
        let v = line_views(r.lines@);
        let l = r.lines@;
        assert(v.len() == l.len());
        assert forall|i: int| 0 <= i < l.len() implies (#[trigger] l[i]).to_stderr by {
            assert(v[i] == l[i]@);
        }
        if l.len() > 1 {
            assert(v[1] == l[1]@);
            lemma_advice(code);
        }
    }
}

proof fn lemma_part(s: Seq<char>, i: int, t: Seq<char>)
    requires
        0 <= i,
        i + t.len() <= s.len(),
        forall|j: int| 0 <= j < t.len() ==> s[i + j] == #[trigger] t[j],
    ensures
        holds(s, t),
{
    assert(s.subrange(i, i + t.len()) =~= t);
    assert(stands_at(s, i, t));
}

proof fn lemma_advice(code: ErrorCode)
    requires
        crate::render::advice(code).len() > 0,
    ensures
        ({
            let t = crate::render::advice(code)[0];
            &&& code == ErrorCode::SnapshotAlreadyExists ==> holds(t, "different snapshot ID"@)
            &&& code == ErrorCode::DiskSpaceInsufficient ==> holds(t, "'ws-ckpt delete'"@)
            &&& code == ErrorCode::SnapshotNotFound ==> holds(t, "'ws-ckpt list'"@) && holds(
                t,
                "available snapshots"@,
            )
            &&& code == ErrorCode::WorkspaceNotFound ==> holds(t, "'ws-ckpt init'"@)
            &&& code == ErrorCode::CwdOccupied ==> holds(t, "PID"@)
            &&& code == ErrorCode::CwdScanFailed ==> holds(t, "retry"@)
        }),
{
    let t = crate::render::advice(code)[0];
    match code {
        ErrorCode::SnapshotAlreadyExists => {
            reveal_strlit("  Please use a different snapshot ID.");
            reveal_strlit("different snapshot ID");
            lemma_part(t, 15, "different snapshot ID"@);
        },
        ErrorCode::DiskSpaceInsufficient => {
            reveal_strlit("  Use 'ws-ckpt delete' to remove old snapshots, or free disk space.");
            reveal_strlit("'ws-ckpt delete'");
            lemma_part(t, 6, "'ws-ckpt delete'"@);
        },
        ErrorCode::SnapshotNotFound => {
            reveal_strlit("  Use 'ws-ckpt list' to view available snapshots.");
            reveal_strlit("'ws-ckpt list'");
            reveal_strlit("available snapshots");
            lemma_part(t, 6, "'ws-ckpt list'"@);
            lemma_part(t, 29, "available snapshots"@);
        },
        ErrorCode::WorkspaceNotFound => {
            reveal_strlit(
                "  Use 'ws-ckpt init' to initialize, or 'ws-ckpt list' to view workspaces.",
            );
            reveal_strlit("'ws-ckpt init'");
            lemma_part(t, 6, "'ws-ckpt init'"@);
        },
        ErrorCode::CwdOccupied => {
            reveal_strlit(
                "  Tip: inspect each PID above with `ps -fp <PID>`, then cd them out or kill.",
            );
            reveal_strlit("PID");
            lemma_part(t, 20, "PID"@);
        },
        ErrorCode::CwdScanFailed => {
            reveal_strlit("  This is typically transient \u{2014} retry the command.");
            reveal_strlit("retry");
            lemma_part(t, 32, "retry"@);
        },
        _ => {},
    }
}

/// An interval is shown in seconds and in whole minutes, and a retention with its mode.
pub proof fn lemma_settings_are_shown_with_units(fc: FileConfig, percent: &str, r: Vec<Line>)
    requires
        call_ensures(show_global_config, (&fc, percent), r),
    ensures
        fc.auto_cleanup_interval_secs matches Some(n) ==> ends_with(
            r@[6].text@,
            seq![' '] + decimal(n as nat) + seq!['s', ' ', '('] + decimal((n / 60) as nat) + seq![
                'm',
                ')',
            ],
        ),
        fc.health_check_interval_secs matches Some(n) ==> ends_with(
            r@[7].text@,
            seq![' '] + decimal(n as nat) + seq!['s', ' ', '('] + decimal((n / 60) as nat) + seq![
                'm',
                ')',
            ],
        ),
        fc.auto_cleanup_keep matches Some(CleanupRetention::Count(n)) ==> ends_with(
            r@[5].text@,
            decimal(n as nat) + " (count mode)"@,
        ),
        fc.auto_cleanup_keep matches Some(CleanupRetention::Age { raw, .. }) ==> ends_with(
            r@[5].text@,
            seq!['"'] + raw@ + seq!['"'] + " (age mode)"@,
        ),
{
    let v = line_views(r@);
    assert(v.len() == r@.len());
    assert(v[5] == r@[5]@);
    assert(v[6] == r@[6]@);
    assert(v[7] == r@[7]@);
    reveal_strlit("");
    if let Some(n) = fc.auto_cleanup_interval_secs {
        reveal_strlit("  Auto-cleanup interval:   ");
        lemma_interval_tail("  Auto-cleanup interval:   "@, n);
        assert(r@[6].text@ =~= "  Auto-cleanup interval:   "@ + crate::render::interval_text(n));
    }
    if let Some(n) = fc.health_check_interval_secs {
        reveal_strlit("  Health-check interval:   ");
        lemma_interval_tail("  Health-check interval:   "@, n);
        assert(r@[7].text@ =~= "  Health-check interval:   "@ + crate::render::interval_text(n));
    }
    if let Some(k) = fc.auto_cleanup_keep {
        let p = "  Auto-cleanup keep:       "@;
        let m = crate::render::keep_mode_text(k@);
        assert(r@[5].text@ =~= p + m);
        match k {
            CleanupRetention::Count(n) => {
                assert((p + m).skip(p.len() as int) =~= decimal(n as nat) + " (count mode)"@);
            },
            CleanupRetention::Age { raw, .. } => {
                reveal_strlit("\"");
                reveal_strlit("\" (age mode)");
                reveal_strlit(" (age mode)");
                let e = seq!['"'] + raw@ + seq!['"'] + " (age mode)"@;
                assert(m =~= e);
                assert((p + m).skip(p.len() as int) =~= e);
            },
        }
    }
}

proof fn lemma_interval_tail(p: Seq<char>, n: u64)
    requires
        p.len() > 0,
        p.last() == ' ',
    ensures
        ends_with(
            p + crate::render::interval_text(n),
            seq![' '] + decimal(n as nat) + seq!['s', ' ', '('] + decimal((n / 60) as nat) + seq![
                'm',
                ')',
            ],
        ),
{
    reveal_strlit("s (");
    reveal_strlit("m)");
    assert("s ("@ =~= seq!['s', ' ', '(']);
    assert("m)"@ =~= seq!['m', ')']);
    let i = crate::render::interval_text(n);
    let e = seq![' '] + decimal(n as nat) + seq!['s', ' ', '('] + decimal((n / 60) as nat) + seq![
        'm',
        ')',
    ];
    assert((p + i).skip(p.len() - 1) =~= e);
}

proof fn lemma_heading(offset_secs: i32)
    ensures
        ({
            let d = crate::render::date_heading(offset_secs);
            let a: int = if offset_secs >= 0 {
                offset_secs as int
            } else {
                -(offset_secs as int)
            };
            let sign = if offset_secs >= 0 {
                '+'
            } else {
                '-'
            };
            let h = decimal((a / 3600) as nat);
            let m = a % 3600 / 60;
            &&& m == 0 ==> d == "CREATED (UTC"@ + seq![sign] + h + seq![')']
            &&& m != 0 && m < 10 ==> d == "CREATED (UTC"@ + seq![sign] + h + seq![':', '0']
                + decimal(m as nat) + seq![')']
            &&& m >= 10 ==> d == "CREATED (UTC"@ + seq![sign] + h + seq![':'] + decimal(m as nat)
                + seq![')']
        }),
{
    reveal_strlit("+");
    reveal_strlit("-");
    reveal_strlit(":");
    reveal_strlit(":0");
    reveal_strlit(")");
    let plus = "+"@;
    let minus = "-"@;
    assert(plus =~= seq!['+']);
    assert(minus =~= seq!['-']);
    assert(":"@ =~= seq![':']);
    assert(":0"@ =~= seq![':', '0']);
    assert(")"@ =~= seq![')']);
    let d = crate::render::date_heading(offset_secs);
    let a: int = if offset_secs >= 0 {
        offset_secs as int
    } else {
        -(offset_secs as int)
    };
    let sign = if offset_secs >= 0 {
        '+'
    } else {
        '-'
    };
    let h = decimal((a / 3600) as nat);
    let m = a % 3600 / 60;
    if m == 0 {
        assert(d =~= "CREATED (UTC"@ + seq![sign] + h + seq![')']);
    } else if m < 10 {
        assert(d =~= "CREATED (UTC"@ + seq![sign] + h + seq![':', '0'] + decimal(m as nat) + seq![
            ')',
        ]);
    } else {
        assert(d =~= "CREATED (UTC"@ + seq![sign] + h + seq![':'] + decimal(m as nat) + seq![')']);
    }
}

/// The heading of the dates says by how many hours, and minutes where there are some, they are ahead
/// of or behind UTC.
pub proof fn lemma_dates_say_their_offset(
    snapshots: Vec<SnapshotEntry>,
    dates: Vec<String>,
    offset_secs: i32,
    r: Vec<Line>,
)
    requires
        dates@.len() == snapshots@.len(),
        snapshots@.len() > 0,
        call_ensures(show_list, (&snapshots, &dates, offset_secs), r),
    ensures
        ({
            let t = r@[0].text@;
            let a: int = if offset_secs >= 0 {
                offset_secs as int
            } else {
                -(offset_secs as int)
            };
            let sign = if offset_secs >= 0 {
                '+'
            } else {
                '-'
            };
            let h = decimal((a / 3600) as nat);
            let m = a % 3600 / 60;
            &&& m == 0 ==> holds(t, "CREATED (UTC"@ + seq![sign] + h + seq![')'])
            &&& m != 0 && m < 10 ==> holds(
                t,
                "CREATED (UTC"@ + seq![sign] + h + seq![':', '0'] + decimal(m as nat) + seq![')'],
            )
            &&& m >= 10 ==> holds(
                t,
                "CREATED (UTC"@ + seq![sign] + h + seq![':'] + decimal(m as nat) + seq![')'],
            )
        }),
{
    let v = line_views(r@);
    let l = entry_views(snapshots@);
    assert(l.len() == snapshots@.len());
    assert(v.len() == r@.len());
    assert(v[0] == r@[0]@);
    let w = crate::render::table_widths(l, offset_secs);
    let d = crate::render::date_heading(offset_secs);
    lemma_heading(offset_secs);
    lemma_third_cell(w, ("WORKSPACE"@, "SNAPSHOT"@, d, "MESSAGE"@));
}

proof fn lemma_third_cell(
    w: (nat, nat, nat),
    cells: (Seq<char>, Seq<char>, Seq<char>, Seq<char>),
)
    ensures
        holds(crate::render::table_row(w, cells), cells.2),
{
    let p = padded(cells.0, w.0) + " "@ + padded(cells.1, w.1) + " "@;
    let gap = lemma_padded(cells.2, w.2);
    let t = crate::render::table_row(w, cells);
    assert(t =~= p + (padded(cells.2, w.2) + " "@) + cells.3);
    lemma_stands(t, p, cells.2, gap + cells.3);
}

/// The columns of a status line up: below the heading, as far as identifiers and paths fit.
pub proof fn lemma_status_columns_line_up(report: StatusReport, usage: &str, r: Vec<Line>, i: int)
    requires
        call_ensures(show_status, (&report, usage), r),
        0 <= i < report.workspaces@.len(),
    ensures
        stands_at(r@[4].text@, 2, "WORKSPACE"@),
        stands_at(r@[4].text@, 28, "PATH"@),
        stands_at(r@[4].text@, 69, "SNAPSHOTS"@),
        ({
            let w = report.workspaces@[i];
            let t = r@[i + 6].text@;
            &&& stands_at(t, 2, w.ws_id@)
            &&& w.ws_id@.len() <= 25 ==> stands_at(t, 28, w.path@)
            &&& w.ws_id@.len() <= 25 && w.path@.len() <= 40 ==> stands_at(
                t,
                69,
                decimal(w.snapshot_count as nat),
            )
        }),
{
    reveal_strlit("  ");
    reveal_strlit(" ");
    reveal_strlit("WORKSPACE");
    reveal_strlit("PATH");
    reveal_strlit(" SNAPSHOTS");
    reveal_strlit("SNAPSHOTS");
    let v = line_views(r@);
    assert(v.len() == r@.len());
    assert(v[4] == r@[4]@);
    assert(v[i + 6] == r@[i + 6]@);
    let w = report.workspaces@[i];
    assert(v[i + 6] == crate::render::status_line(w));
    let t = r@[i + 6].text@;
    let n = decimal(w.snapshot_count as nat);
    let a = padded(w.ws_id@, 25);
    let b = padded(w.path@, 40);
    assert(t =~= "  "@ + a + " "@ + b + " "@ + n);
    let ga = lemma_padded(w.ws_id@, 25);
    let gb = lemma_padded(w.path@, 40);
    assert(t =~= "  "@ + (a + " "@) + (b + " "@) + n);
    lemma_stands(t, "  "@, w.ws_id@, ga + w.path@ + gb + n);
    if w.ws_id@.len() <= 25 {
        assert(a.len() == 25);
        lemma_stands(t, "  "@ + a + " "@, w.path@, gb + n);
        if w.path@.len() <= 40 {
            assert(b.len() == 40);
            lemma_stands(t, "  "@ + a + " "@ + b + " "@, n, seq![]);
        }
    }
    let h = r@[4].text@;
    let c = padded("WORKSPACE"@, 25);
    let d = padded("PATH"@, 40);
    assert(c.len() == 25 && d.len() == 40);
    let gc = lemma_padded("WORKSPACE"@, 25);
    let gd = lemma_padded("PATH"@, 40);
    assert(" SNAPSHOTS"@ =~= " "@ + "SNAPSHOTS"@);
    assert(h =~= "  "@ + (c + " "@) + (d + " "@) + "SNAPSHOTS"@);
    lemma_stands(h, "  "@, "WORKSPACE"@, gc + "PATH"@ + gd + "SNAPSHOTS"@);
    lemma_stands(h, "  "@ + c + " "@, "PATH"@, gd + "SNAPSHOTS"@);
    lemma_stands(h, "  "@ + c + " "@ + d + " "@, "SNAPSHOTS"@, seq![]);
}

proof fn lemma_chars_fit_in_bytes(s: Seq<char>)
    ensures
        encode_utf8(s).len() >= s.len(),
    decreases s.len(),
{
    if s.len() > 0 {
        lemma_chars_fit_in_bytes(s.drop_first());
    }
}

proof fn lemma_column_widths(l: Seq<crate::snapshot::EntryView>, i: int)
    requires
        0 <= i < l.len(),
    ensures
        crate::render::workspace_width(l) >= l[i].workspace.len(),
        crate::render::workspace_width(l) >= 9,
        crate::render::snapshot_width(l) >= crate::render::listed_id(l[i]).len(),
        crate::render::snapshot_width(l) >= 8,
    decreases l.len(),
{
    reveal_strlit(" [MISSING]");
    lemma_least_widths(l);
    if i == l.len() - 1 {
        lemma_chars_fit_in_bytes(l[i].workspace);
        lemma_chars_fit_in_bytes(l[i].id);
    } else {
        assert(l.drop_last()[i] == l[i]);
        lemma_column_widths(l.drop_last(), i);
    }
}

proof fn lemma_least_widths(l: Seq<crate::snapshot::EntryView>)
    ensures
        crate::render::workspace_width(l) >= 9,
        crate::render::snapshot_width(l) >= 8,
    decreases l.len(),
{
    if l.len() > 0 {
        lemma_least_widths(l.drop_last());
    }
}

/// The columns of a list line up: snapshots and dates stand below their headings in every row.
pub proof fn lemma_list_columns_line_up(
    snapshots: Vec<SnapshotEntry>,
    dates: Vec<String>,
    offset_secs: i32,
    r: Vec<Line>,
    i: int,
    j: int,
)
    requires
        dates@.len() == snapshots@.len(),
        0 <= i < snapshots@.len(),
        0 <= j < snapshots@.len(),
        call_ensures(show_list, (&snapshots, &dates, offset_secs), r),
    ensures
        exists|a: int, b: int|
            #![trigger lines_up(r@[0].text@, a, b, "SNAPSHOT"@, "CREATED (UTC"@)]
            {
                &&& lines_up(r@[0].text@, a, b, "SNAPSHOT"@, "CREATED (UTC"@)
                &&& lines_up(r@[i + 2].text@, a, b, snapshots@[i].id@, dates@[i]@)
                &&& lines_up(r@[j + 2].text@, a, b, snapshots@[j].id@, dates@[j]@)
            },
{
    let w = crate::render::table_widths(entry_views(snapshots@), offset_secs);
    let a = w.0 as int + 1;
    let b = a + w.1 + 1;
    lemma_row_columns(snapshots, dates, offset_secs, r, i);
    lemma_row_columns(snapshots, dates, offset_secs, r, j);
    lemma_heading_columns(snapshots, dates, offset_secs, r);
    assert(lines_up(r@[0].text@, a, b, "SNAPSHOT"@, "CREATED (UTC"@));
}

proof fn lemma_heading_columns(
    snapshots: Vec<SnapshotEntry>,
    dates: Vec<String>,
    offset_secs: i32,
    r: Vec<Line>,
)
    requires
        dates@.len() == snapshots@.len(),
        snapshots@.len() > 0,
        call_ensures(show_list, (&snapshots, &dates, offset_secs), r),
    ensures
        ({
            let w = crate::render::table_widths(entry_views(snapshots@), offset_secs);
            let a = w.0 as int + 1;
            lines_up(r@[0].text@, a, a + w.1 + 1, "SNAPSHOT"@, "CREATED (UTC"@)
        }),
{
    let v = line_views(r@);
    let l = entry_views(snapshots@);
    assert(l.len() == snapshots@.len());
    assert(v.len() == r@.len());
    assert(v[0] == r@[0]@);
    lemma_heading_cells(l, offset_secs);
}

proof fn lemma_heading_cells(l: Seq<crate::snapshot::EntryView>, offset_secs: i32)
    ensures
        ({
            let w = crate::render::table_widths(l, offset_secs);
            let a = w.0 as int + 1;
            let d = crate::render::date_heading(offset_secs);
            let t = crate::render::table_row(w, ("WORKSPACE"@, "SNAPSHOT"@, d, "MESSAGE"@));
            lines_up(t, a, a + w.1 + 1, "SNAPSHOT"@, "CREATED (UTC"@)
        }),
{
    let w = crate::render::table_widths(l, offset_secs);
    let a = w.0 as int + 1;
    let d = crate::render::date_heading(offset_secs);
    let t = crate::render::table_row(w, ("WORKSPACE"@, "SNAPSHOT"@, d, "MESSAGE"@));
    let none: Seq<char> = seq![];
    let id = "SNAPSHOT"@;
    let h = "CREATED (UTC"@;
    let o = crate::render::offset_text(offset_secs) + ")"@;
    lemma_least_widths(l);
    assert("WORKSPACE"@.len() == 9 && id.len() == 8) by {
        reveal_strlit("WORKSPACE");
        reveal_strlit("SNAPSHOT");
    }
    assert(id + none =~= id);
    lemma_cells_line_up(w, ("WORKSPACE"@, id, d, "MESSAGE"@), id, none);
    assert(d =~= h + o);
    lemma_first_of_two(t, a, a + w.1 + 1, id, h, o);
}

proof fn lemma_first_of_two(
    t: Seq<char>,
    a: int,
    b: int,
    id: Seq<char>,
    h: Seq<char>,
    o: Seq<char>,
)
    requires
        lines_up(t, a, b, id, h + o),
    ensures
        lines_up(t, a, b, id, h),
{
    assert(t.subrange(b, b + h.len()) =~= h) by {
        assert forall|k: int| 0 <= k < h.len() implies t[b + k] == h[k] by {
            assert(t.subrange(b, b + (h + o).len())[k] == (h + o)[k]);
        }
    }
}

/// Whether a snapshot and a date stand at two places of a line.
pub open spec fn lines_up(
    t: Seq<char>,
    a: int,
    b: int,
    snapshot: Seq<char>,
    date: Seq<char>,
) -> bool {
    stands_at(t, a, snapshot) && stands_at(t, b, date) && t[a - 1] == ' ' && t[b - 1] == ' '
}

proof fn lemma_row_columns(
    snapshots: Vec<SnapshotEntry>,
    dates: Vec<String>,
    offset_secs: i32,
    r: Vec<Line>,
    i: int,
)
    requires
        dates@.len() == snapshots@.len(),
        0 <= i < snapshots@.len(),
        call_ensures(show_list, (&snapshots, &dates, offset_secs), r),
    ensures
        ({
            let w = crate::render::table_widths(entry_views(snapshots@), offset_secs);
            let a = w.0 as int + 1;
            lines_up(r@[i + 2].text@, a, a + w.1 + 1, snapshots@[i].id@, dates@[i]@)
        }),
{
    let v = line_views(r@);
    let l = entry_views(snapshots@);
    let ds = texts(dates@);
    let w = crate::render::table_widths(l, offset_secs);
    assert(v.len() == r@.len());
    assert(l.len() == snapshots@.len());
    assert(v[i + 2] == r@[i + 2]@);
    assert(l[i] == snapshots@[i]@);
    assert(ds[i] == dates@[i]@);
    lemma_column_widths(l, i);
    let e = snapshots@[i];
    let tail = if e.meta.missing {
        " [MISSING]"@
    } else {
        seq![]
    };
    let msg = match l[i].meta.message {
        Some(m) => m,
        None => "-"@,
    };
    assert(crate::render::listed_id(l[i]) =~= e.id@ + tail);
    lemma_cells_line_up(w, (e.workspace@, e.id@ + tail, ds[i], msg), e.id@, tail);
}

proof fn lemma_cells_line_up(
    w: (nat, nat, nat),
    cells: (Seq<char>, Seq<char>, Seq<char>, Seq<char>),
    id: Seq<char>,
    tail: Seq<char>,
)
    requires
        cells.0.len() <= w.0,
        cells.1.len() <= w.1,
        cells.1 == id + tail,
    ensures
        lines_up(
            crate::render::table_row(w, cells),
            w.0 as int + 1,
            w.0 as int + 1 + w.1 + 1,
            id,
            cells.2,
        ),
{
    reveal_strlit(" ");
    let p0 = padded(cells.0, w.0);
    let p1 = padded(cells.1, w.1);
    let p2 = padded(cells.2, w.2);
    let t = crate::render::table_row(w, cells);
    assert(p0.len() == w.0 && p1.len() == w.1);
    let a = w.0 as int + 1;
    let b = a + w.1 + 1;
    assert(t.subrange(a, a + id.len()) =~= id);
    assert(p2.len() >= cells.2.len());
    assert(t.subrange(b, b + cells.2.len()) =~= cells.2);
}

/// Each field of a policy is named, and its values line up as far as they fit.
pub proof fn lemma_policy_fields_are_named(
    ws_id: &str,
    effective: EffectivePolicy,
    local: WorkspacePolicy,
    global: GlobalPolicySnapshot,
    r: Vec<Line>,
)
    requires
        call_ensures(show_policy, (ws_id, &effective, &local, &global), r),
    ensures
        stands_at(r@[1].text@, 2, "auto_cleanup "@),
        stands_at(r@[2].text@, 2, "auto_cleanup_keep "@),
        stands_at(r@[1].text@, 25, "effective="@),
        stands_at(r@[2].text@, 25, "effective="@),
        stands_at(r@[1].text@, 50, "local="@),
        stands_at(r@[1].text@, 71, "global="@),
{
    reveal_strlit("  ");
    reveal_strlit(" ");
    reveal_strlit("auto_cleanup");
    reveal_strlit("auto_cleanup ");
    reveal_strlit("auto_cleanup_keep");
    reveal_strlit("auto_cleanup_keep ");
    reveal_strlit(" effective=");
    reveal_strlit("effective=");
    reveal_strlit(" local=");
    reveal_strlit("local=");
    reveal_strlit(" global=");
    reveal_strlit("global=");
    reveal_strlit("true");
    reveal_strlit("false");
    reveal_strlit("(inherit)");
    let v = line_views(r@);
    assert(v.len() == r@.len());
    assert(v[1] == r@[1]@);
    assert(v[2] == r@[2]@);
    let f = padded(crate::render::flag_text(effective@.auto_cleanup), 14);
    let lt = match local@.auto_cleanup {
        Some(b) => crate::render::flag_text(b),
        None => "(inherit)"@,
    };
    let lp = padded(lt, 14);
    let g = crate::render::flag_text(global@.auto_cleanup);
    let n1 = padded("auto_cleanup"@, 22);
    let n2 = padded("auto_cleanup_keep"@, 22);
    let t1 = r@[1].text@;
    let t2 = r@[2].text@;
    assert(f.len() == 14 && lp.len() == 14 && n1.len() == 22 && n2.len() == 22);
    assert(t1 == "  "@ + n1 + " effective="@ + f + " local="@ + lp + " global="@ + g);
    assert(t1.subrange(2, 15) =~= "auto_cleanup "@);
    assert(t2.subrange(2, 20) =~= "auto_cleanup_keep "@);
    assert(t1.subrange(25, 35) =~= "effective="@);
    assert(t2.subrange(25, 35) =~= "effective="@);
    assert(t1.subrange(50, 56) =~= "local="@);
    assert(t1.subrange(71, 78) =~= "global="@);
}

} // verus!
