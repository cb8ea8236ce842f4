//! Promises about deleting snapshots and giving workspaces up.

use crate::cli::is_yes;
use crate::laws::display::{ends_with, holds, lemma_stands};
use crate::laws::workspaces::{is_error_of, rest_stays};
use crate::lifecycle::DeletePlan;
use crate::message::{ErrorCode, Response, WorkspaceInfo};
use crate::paths::normal_path;
use crate::recovery::{
    ask_batch, ask_single, recover_refusal, snapshot_count, RecoverEvent, RecoverStage, Tally,
};
use crate::registry::WorkspaceState;
use crate::removal::{DeleteEvent, DeleteRequest, DeleteStage, TeardownEvent, TeardownStage};
use crate::render::{line_views, Line, Shown};
use crate::state::{DaemonState, RegistrationFacts};
use crate::text::decimal;
use crate::text_list::{opt_text, texts};
use vstd::prelude::*;

verus! {

/// A deletion begins with the workspace, the snapshot and the force that were asked for. Without a
/// workspace it begins with the one snapshot that is found among all workspaces, or is refused.
pub proof fn lemma_deletions_begin_as_asked(
    state: DaemonState,
    workspace: Option<&str>,
    snapshot: &str,
    force: bool,
    found: Result<(String, String), Response>,
    r: DeleteStage,
)
    requires
        call_ensures(DeleteStage::begin, (&state, workspace, snapshot, force), r),
        call_ensures(DaemonState::delete_target, (&state, snapshot), found),
    ensures
        r matches DeleteStage::ResolvePath { request } ==> {
            &&& request.force == force
            &&& workspace matches Some(w) ==> request.workspace@ == w@ && request.snapshot@
                == snapshot@
            &&& workspace is None ==> (found matches Ok(f) && request.workspace@ == f.0@
                && request.snapshot@ == f.1@)
        },
        r is ResolvePath || r is Done,
        r is Done <==> workspace is None && found is Err,
        r matches DeleteStage::Done(e) ==> is_error_of(e, ErrorCode::SnapshotNotFound),
{
}

/// A deletion does what was planned: it deletes the subvolume of the very snapshot of the plan where
/// there is one, and only then takes that snapshot, and no other, out of the index of that
/// workspace. What fails before that leaves every index as it was.
pub proof fn lemma_deletions_follow_the_plan(
    stage: DeleteStage,
    state: &mut DaemonState,
    event: DeleteEvent,
    next: DeleteStage,
)
    requires
        old(state).registry@.keyed(),
        call_ensures(DeleteStage::advance, (stage, state, event), next),
    ensures
        rest_stays(*final(state), *old(state)),
        final(state).registry@.paths == old(state).registry@.paths,
        !(next is SaveIndex) ==> final(state).registry@ == old(state).registry@,
        next matches DeleteStage::SaveIndex { ws_id, snapshot_id } ==> {
            let a = old(state).registry@;
            let b = final(state).registry@;
            &&& b.by_id.remove(ws_id@) == a.by_id.remove(ws_id@)
            &&& !(stage is SaveIndex) && a.by_id.contains_key(ws_id@) ==> {
                &&& b.by_id[ws_id@].index.nodes.dom() == a.by_id[ws_id@].index.nodes.dom().remove(
                    snapshot_id@,
                )
                &&& b.by_id[ws_id@].path == a.by_id[ws_id@].path
                &&& b.by_id[ws_id@].policy == a.by_id[ws_id@].policy
            }
        },
        (stage, event) matches (
            DeleteStage::DeleteSubvolume { ws_id, snapshot_id },
            DeleteEvent::SubvolumeDeleted(deleted),
        ) ==> (match deleted {
            Ok(_) => next matches DeleteStage::SaveIndex { ws_id: w, snapshot_id: s } && w@
                == ws_id@ && s@ == snapshot_id@,
            Err(e) => next matches DeleteStage::Done(Response::Error { code, message }) && code
                == ErrorCode::InternalError && message@ == e@,
        }),
        (stage, event) matches (
            DeleteStage::SaveIndex { snapshot_id, .. },
            DeleteEvent::IndexSaved(saved),
        ) ==> (match saved {
            Ok(_) => next matches DeleteStage::SaveManifest { snapshot_id: s } && s@
                == snapshot_id@,
            Err(e) => next matches DeleteStage::Done(Response::Error { code, message }) && code
                == ErrorCode::InternalError && message@ == e@,
        }),
        (stage, event) matches (
            DeleteStage::SaveManifest { snapshot_id },
            DeleteEvent::ManifestSaved(_),
        ) ==> (next matches DeleteStage::Done(Response::DeleteOk { target }) && target@
            == snapshot_id@),
{
    let a = old(state).registry@;
    let b = final(state).registry@;
    if let DeleteStage::SaveIndex { ws_id, snapshot_id } = next {
        if a.by_id.contains_key(ws_id@) {
            assert(a.by_id[ws_id@].ws_id == ws_id@);
            let x = a.by_id[ws_id@].index;
            let y = x.deleted(snapshot_id@);
            assert(x.unlinked(snapshot_id@).nodes.dom() =~= x.nodes.dom());
            assert(y.nodes.dom() =~= x.nodes.dom().remove(snapshot_id@));
        }
        assert(b.by_id.remove(ws_id@) =~= a.by_id.remove(ws_id@));
    }
}

/// A deletion looks at the registration of the workspace that the text finds, and goes on with what
/// can be planned for it: the snapshot of the plan, and its subvolume exactly where it has one.
pub proof fn lemma_deletions_look_before_they_act(
    request: DeleteRequest,
    canonical: Option<String>,
    facts: RegistrationFacts,
    ws_id: String,
    path: String,
    state: &mut DaemonState,
    next: DeleteStage,
)
    requires
        call_ensures(
            DeleteStage::advance,
            (
                (DeleteStage::ProbeRegistration { request, canonical, ws_id, path }),
                state,
                DeleteEvent::RegistrationProbed(facts),
            ),
            next,
        ),
    ensures
        next is Done || next is DeleteSubvolume || next is SaveIndex,
        next matches DeleteStage::Done(r) ==> r is Error,
        next matches DeleteStage::DeleteSubvolume { ws_id: w, snapshot_id: s } ==> deletable(
            *old(state),
            request,
            canonical,
            facts,
            w@,
            s@,
            false,
        ),
        next matches DeleteStage::SaveIndex { ws_id: w, snapshot_id: s } ==> deletable(
            *old(state),
            request,
            canonical,
            facts,
            w@,
            s@,
            true,
        ),
{
    let v = old(state).registry@;
    let stage = DeleteStage::ProbeRegistration { request, canonical, ws_id, path };
    let event = DeleteEvent::RegistrationProbed(facts);
    assert(crate::removal::delete_moves(*old(state), stage, event, next));
    let target = crate::state::resolved_workspace(v, request.workspace@, opt_text(canonical));
    let planned = choose|planned: Result<DeletePlan, Response>| #[trigger]
        crate::removal::follows_plan(next, planned) && crate::lifecycle::delete_planned(
            target,
            request.workspace@,
            facts,
            request.snapshot@,
            request.force,
            planned,
        );
    if let Ok(p) = planned {
        let w = target->0;
        let i = w.index;
        let m = i.matching(request.snapshot@);
        let t = request.snapshot@;
        if i.nodes.contains_key(t) {
            assert(t =~= t.subrange(0, t.len() as int));
        } else {
            assert(m.contains(m.choose())) by {
                if m.finite() {
                    vstd::set_lib::lemma_set_empty_equivalency_len(m);
                }
            }
        }
    }
}

/// Whether a snapshot may be deleted as it is asked for: it is one of the workspace that the text
/// finds, begins with the text asked for, and is that very text where the workspace has it; it is
/// missing, or is not; it is not pinned, unless by force; and the registration is live.
pub open spec fn deletable(
    state: DaemonState,
    request: DeleteRequest,
    canonical: Option<String>,
    facts: RegistrationFacts,
    ws_id: Seq<char>,
    id: Seq<char>,
    missing: bool,
) -> bool {
    &&& crate::state::resolved_workspace(
        state.registry@,
        request.workspace@,
        opt_text(canonical),
    ) matches Some(w)
    &&& w.ws_id == ws_id
    &&& w.index.nodes.contains_key(id)
    &&& request.snapshot@.is_prefix_of(id)
    &&& w.index.nodes.contains_key(request.snapshot@) ==> id == request.snapshot@
    &&& w.index.nodes[id].missing == missing
    &&& w.index.nodes[id].pinned ==> request.force
    &&& facts.registration_target is Some
    &&& facts.live_target is Some
}

/// A workspace is given up by the text that was given, found as texts find workspaces. It leaves the
/// registry exactly when its storage was recovered, it alone, and with its path; the answer then
/// names that path whatever else fails.
pub proof fn lemma_giving_up(
    stage: TeardownStage,
    state: &mut DaemonState,
    event: TeardownEvent,
    next: TeardownStage,
)
    requires
        call_ensures(TeardownStage::advance, (stage, state, event), next),
    ensures
        rest_stays(*final(state), *old(state)),
        (stage, event) matches (
            TeardownStage::RecoverStorage { ws_id, path },
            TeardownEvent::StorageRecovered(recovered),
        ) ==> (match recovered {
            Ok(_) => {
                &&& final(state).registry@.by_id == old(state).registry@.by_id.remove(ws_id@)
                &&& old(state).registry@.by_id.contains_key(ws_id@)
                    ==> final(state).registry@.paths == old(state).registry@.paths.remove(
                    normal_path(old(state).registry@.by_id[ws_id@].path),
                )
                &&& next matches TeardownStage::WipeIndex { ws_id: w, path: p } && w@ == ws_id@
                    && p@ == path@
            },
            Err(e) => {
                &&& final(state).registry@ == old(state).registry@
                &&& next matches TeardownStage::Done(Response::Error { code, message }) && code
                    == ErrorCode::InternalError && message@ == e@
            },
        }),
        !(stage is RecoverStorage && event is StorageRecovered) ==> final(state).registry@ == old(state).registry@,
        (stage, event) matches (TeardownStage::WipeIndex { path, .. }, TeardownEvent::IndexWiped(_))
            ==> (next matches TeardownStage::SaveManifest { path: p } && p@ == path@),
        (stage, event) matches (
            TeardownStage::SaveManifest { path },
            TeardownEvent::ManifestSaved(_),
        ) ==> (next matches TeardownStage::Done(Response::RecoverOk { workspace }) && workspace@
            == path@),
{
    if let TeardownStage::RecoverStorage { ws_id, path } = stage {
        if !old(state).registry@.by_id.contains_key(ws_id@) {
            assert(old(state).registry@.by_id.remove(ws_id@) =~= old(state).registry@.by_id);
        }
    }
}

/// Giving up begins with the text, and goes on with the workspace that it finds, at its path.
pub proof fn lemma_giving_up_what_was_found(
    workspace: &str,
    first: TeardownStage,
    canonical: Option<String>,
    state: &mut DaemonState,
    next: TeardownStage,
    c: Option<&str>,
    found: Option<&WorkspaceState>,
)
    requires
        call_ensures(TeardownStage::begin, (workspace,), first),
        call_ensures(
            TeardownStage::advance,
            (first, state, TeardownEvent::PathResolved(canonical)),
            next,
        ),
        crate::text_list::opt_str(c) == opt_text(canonical),
        call_ensures(DaemonState::resolve_workspace, (&*old(state), workspace, c), found),
    ensures
        found matches Some(w) ==> (next matches TeardownStage::RecoverStorage { ws_id, path }
            && ws_id@ == w.ws_id@ && path@ == w.path@),
        found is None ==> (next matches TeardownStage::Done(e) && is_error_of(
            e,
            ErrorCode::WorkspaceNotFound,
        )),
        final(state).registry@ == old(state).registry@,
{
}

/// A recovery that names nothing is refused; all of them take precedence over one.
pub proof fn lemma_recoveries_name_something(
    workspace: Option<String>,
    all: bool,
    force: bool,
    refusal: Option<&'static str>,
    r: Result<RecoverStage, &'static str>,
)
    requires
        call_ensures(recover_refusal, (workspace is Some, all), refusal),
        call_ensures(RecoverStage::begin, (workspace, all, force), r),
    ensures
        refusal is Some <==> workspace is None && !all,
        r is Err <==> refusal is Some,
        r matches Ok(s) ==> {
            &&& all ==> (s matches RecoverStage::AskAll { force: f } && f == force)
            &&& !all ==> (s matches RecoverStage::AskOne { workspace: w, force: f } && w@
                == workspace->0@ && f == force)
        },
{
}

/// Whether a recovery is one of every workspace, rather than of the one that was named.
pub open spec fn is_batch(stage: RecoverStage) -> bool {
    match stage {
        RecoverStage::Confirm { batch, .. } => batch,
        RecoverStage::Send { batch, .. } => batch,
        _ => false,
    }
}

/// The workspaces that a stage is about to recover.
pub open spec fn targets_of(stage: RecoverStage) -> Option<Seq<Seq<char>>> {
    match stage {
        RecoverStage::Confirm { targets, .. } => Some(texts(targets@)),
        RecoverStage::Send { targets, .. } => Some(texts(targets@)),
        _ => None,
    }
}

/// Nothing is recovered unless the user agreed or asked for it by force; what is recovered is what
/// the user was asked about. A status that could not be had ends the dialogue without success.
pub proof fn lemma_recoveries_need_a_yes(
    stage: RecoverStage,
    event: RecoverEvent,
    line: &str,
    yes: bool,
    r: (Vec<Line>, RecoverStage),
)
    requires
        call_ensures(RecoverStage::advance, (stage, event), r),
        event matches RecoverEvent::Replied(l) ==> l@ == line@,
        call_ensures(is_yes, (line,), yes),
    ensures
        r.1 is Send && !(stage is Send) ==> {
            ||| stage matches RecoverStage::AskAll { force } && force
            ||| stage matches RecoverStage::AskOne { force, .. } && force
            ||| stage is Confirm && event is Replied && yes
        },
        r.1 is Confirm && !(stage is Confirm) ==> {
            ||| stage matches RecoverStage::AskAll { force } && !force
            ||| stage matches RecoverStage::AskOne { force, .. } && !force
        },
        targets_of(stage) is Some && targets_of(r.1) is Some ==> targets_of(r.1) == targets_of(
            stage,
        ),
        stage is AskOne && targets_of(r.1) is Some ==> !is_batch(r.1),
        stage is AskAll && targets_of(r.1) is Some ==> is_batch(r.1),
        (stage is Confirm || stage is Send) && targets_of(r.1) is Some ==> is_batch(r.1) == is_batch(
            stage,
        ),
        !(stage is Send) ==> (r.1 matches RecoverStage::Send { done, tally, .. } ==> done == 0
            && tally.failed == 0),
        stage is Confirm && event is Replied ==> (if yes {
            r.1 is Send
        } else {
            r.1 matches RecoverStage::Done { success } && success
        }),
        (stage, event) matches (
            RecoverStage::AskOne { workspace, .. },
            RecoverEvent::Answered(a),
        ) ==> (if a is Error {
            r.1 matches RecoverStage::Done { success } && !success
        } else {
            targets_of(r.1) == Some(seq![workspace@])
        }),
        (stage, event) matches (
            RecoverStage::AskAll { .. },
            RecoverEvent::Answered(Response::StatusOk { report }),
        ) ==> (if report.workspaces@.len() == 0 {
            r.1 matches RecoverStage::Done { success } && success
        } else {
            targets_of(r.1) matches Some(t) && t.len() == report.workspaces@.len() && (forall|
                i: int,
            |
                0 <= i < t.len() ==> #[trigger] t[i] == report.workspaces@[i].path@)
        }),
{
}

/// One workspace after the other is recovered, and the dialogue ends successfully only where none of
/// them failed.
pub proof fn lemma_recoveries_take_turns(
    stage: RecoverStage,
    answer: Response,
    r: (Vec<Line>, RecoverStage),
)
    requires
        stage.wf(),
        call_ensures(RecoverStage::advance, (stage, RecoverEvent::Answered(answer)), r),
    ensures
        stage matches RecoverStage::Send { targets, done, tally, batch } ==> {
            let bad = if answer is RecoverOk {
                0int
            } else {
                1
            };
            &&& batch && done + 1 < targets@.len() ==> (r.1 matches RecoverStage::Send {
                done: d,
                tally: t,
                batch: b,
                ..
            } && d == done + 1 && t.failed == tally.failed + bad && b)
            &&& batch && done + 1 == targets@.len() ==> (r.1 matches RecoverStage::Done { success }
                && (success <==> tally.failed + bad == 0))
            &&& !batch ==> (r.1 matches RecoverStage::Done { success } && (success <==> answer
                is RecoverOk))
            &&& batch ==> r.0@.len() >= 1 && r.0@[0].to_stderr == !(answer is RecoverOk)
        },
{
    if let RecoverStage::Send { targets, done, tally, batch } = stage {
        assert(texts(targets@).len() == targets@.len());
        assert(line_views(r.0@).len() == r.0@.len());
        if batch {
            assert(line_views(r.0@)[0] == r.0@[0]@);
        }
    }
}

/// A tally counts what did not succeed, and the batch is a success only where that is nothing.
pub proof fn lemma_tallies_count_failures(
    total: usize,
    fresh: Tally,
    tally: &mut Tally,
    path: &str,
    answer: Response,
    line: String,
    before: Result<String, String>,
    now: Result<String, String>,
    t: Tally,
)
    requires
        call_ensures(Tally::new, (total,), fresh),
        call_ensures(Tally::count, (tally, path, &answer), line),
        call_ensures(Tally::summary, (&fresh,), before),
        t == *final(tally),
        call_ensures(Tally::summary, (&t,), now),
    ensures
        fresh.total == total,
        fresh.failed == 0,
        before is Ok,
        final(tally).total == old(tally).total,
        answer is RecoverOk ==> final(tally).failed == old(tally).failed,
        !(answer is RecoverOk) ==> final(tally).failed == old(tally).failed + 1,
        now is Ok <==> t.failed == 0,
        now matches Err(m) ==> holds(m@, decimal(t.failed as nat)) && holds(
            m@,
            decimal(t.total as nat),
        ),
        answer matches Response::RecoverOk { workspace } ==> ends_with(line@, workspace@),
        !(answer is RecoverOk) ==> holds(line@, path@),
        answer matches Response::Error { message, .. } ==> holds(line@, message@),
{
    match answer {
        Response::RecoverOk { workspace } => {
            let p = "Workspace recovered: "@;
            assert((p + workspace@).skip(p.len() as int) =~= workspace@);
        },
        Response::Error { code, message } => {
            let p = "\x1b[31mError ["@ + crate::render::code_text(code) + "] recovering "@;
            lemma_stands(line@, p, path@, ": "@ + message@ + "\x1b[0m"@);
            lemma_stands(line@, p + path@ + ": "@, message@, "\x1b[0m"@);
        },
        _ => {
            lemma_stands(line@, "\x1b[33mUnexpected response for "@, path@, "\x1b[0m"@);
        },
    }
    if let Err(m) = now {
        let p = "\x1b[31mRecover failed for "@;
        let f = decimal(t.failed as nat);
        let n = decimal(t.total as nat);
        let q =
            " workspace(s); failed workspaces and their snapshots are preserved for retry."@
            + "\x1b[0m"@;
        lemma_stands(m@, p, f, "/"@ + n + q);
        lemma_stands(m@, p + f + "/"@, n, q);
    }
}

/// The number of snapshots at stake is that of the first workspace that the status tells of.
pub proof fn lemma_stakes_are_counted(status: Response, r: Result<u32, Shown>)
    requires
        call_ensures(snapshot_count, (&status,), r),
    ensures
        r is Err <==> status is Error,
        status matches Response::StatusOk { report } ==> (r matches Ok(n) && if report.workspaces@.len()
            > 0 {
            n == report.workspaces@[0].snapshot_count
        } else {
            n == 0
        }),
        r matches Err(s) ==> s.next is Fail,
{
}

/// Before a recovery the user is told of every workspace its path and the number of its snapshots.
pub proof fn lemma_questions_name_the_stakes(
    workspaces: Vec<WorkspaceInfo>,
    workspace: &str,
    snapshots: u32,
    batch: Vec<String>,
    single: Vec<String>,
    i: int,
)
    requires
        call_ensures(ask_batch, (&workspaces,), batch),
        call_ensures(ask_single, (workspace, snapshots), single),
        0 <= i < workspaces@.len(),
    ensures
        batch@.len() == workspaces@.len() + 2,
        holds(batch@[0]@, decimal(workspaces@.len())),
        holds(batch@[i + 1]@, workspaces@[i].path@),
        holds(batch@[i + 1]@, decimal(workspaces@[i].snapshot_count as nat)),
        single@.len() == 2,
        holds(single@[0]@, workspace@),
        holds(single@[0]@, decimal(snapshots as nat)),
{
    let b = texts(batch@);
    let s = texts(single@);
    assert(b.len() == batch@.len() && s.len() == single@.len());
    assert(b[0] == batch@[0]@);
    assert(b[i + 1] == batch@[i + 1]@);
    assert(s[0] == single@[0]@);
    let w = workspaces@[i];
    let n = decimal(w.snapshot_count as nat);
    let z = " snapshots)"@;
    lemma_stands(b[0], "Recovering "@, decimal(workspaces@.len()), " workspace(s):"@);
    lemma_stands(b[i + 1], "  "@, w.path@, " ("@ + n + z);
    lemma_stands(b[i + 1], "  "@ + w.path@ + " ("@, n, z);
    let m = decimal(snapshots as nat);
    lemma_stands(s[0], "Workspace: "@, workspace@, " ("@ + m + z);
    lemma_stands(s[0], "Workspace: "@ + workspace@ + " ("@, m, z);
}

/// A deletion goes on with the workspace that the text finds, with what was asked for unchanged.
pub proof fn lemma_deletions_find_their_workspace(
    request: DeleteRequest,
    canonical: Option<String>,
    text: &str,
    c: Option<&str>,
    found: Option<&WorkspaceState>,
    state: &mut DaemonState,
    next: DeleteStage,
)
    requires
        text@ == request.workspace@,
        crate::text_list::opt_str(c) == opt_text(canonical),
        call_ensures(DaemonState::resolve_workspace, (&*old(state), text, c), found),
        call_ensures(
            DeleteStage::advance,
            (
                (DeleteStage::ResolvePath { request }),
                state,
                DeleteEvent::PathResolved(canonical),
            ),
            next,
        ),
    ensures
        final(state).registry@ == old(state).registry@,
        found matches Some(w) ==> (next matches DeleteStage::ProbeRegistration {
            request: q,
            canonical: x,
            ws_id,
            path,
        } && q == request && x == canonical && ws_id@ == w.ws_id@ && path@ == w.path@),
        found is None ==> (next matches DeleteStage::Done(e) && is_error_of(
            e,
            ErrorCode::WorkspaceNotFound,
        )),
{
}

/// A single recovery is told as it went: to standard output with the workspace where it succeeded,
/// and to standard error where it did not. Where the user does not agree, that is told.
pub proof fn lemma_single_recoveries_are_told(
    stage: RecoverStage,
    answer: Response,
    r: (Vec<Line>, RecoverStage),
)
    requires
        call_ensures(RecoverStage::advance, (stage, RecoverEvent::Answered(answer)), r),
    ensures
        stage matches RecoverStage::Send { batch, .. } ==> (!batch ==> {
            &&& r.0@.len() == 1
            &&& r.0@[0].to_stderr <==> !(answer is RecoverOk)
            &&& answer matches Response::RecoverOk { workspace } ==> holds(
                r.0@[0].text@,
                workspace@,
            )
            &&& answer matches Response::Error { message, .. } ==> holds(r.0@[0].text@, message@)
        }),
{
    if let RecoverStage::Send { batch, .. } = stage {
        if !batch {
            let v = line_views(r.0@);
            assert(v.len() == r.0@.len());
            assert(v[0] == r.0@[0]@);
            let t = r.0@[0].text@;
            match answer {
                Response::RecoverOk { workspace } => {
                    let p = "\x1b[32m\u{2713} "@ + "Workspace recovered: "@;
                    lemma_stands(t, p, workspace@, "\x1b[0m"@);
                },
                Response::Error { code, message } => {
                    let p = "\x1b[31mError ["@ + crate::render::code_text(code) + "]: "@;
                    lemma_stands(t, p, message@, "\x1b[0m"@);
                },
                _ => {},
            }
        }
    }
}

} // verus!
