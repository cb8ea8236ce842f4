//! The dialogue of turning workspaces back into normal directories.

use crate::cli::{agrees, is_yes};
use crate::config::joined;
use crate::message::{Response, WorkspaceInfo};
use crate::render::{
    code_name, code_text, err, failure_lines, line_views, no_lines, out, put, show_failure,
    show_response, success, Line, LineView, Shown,
};
use crate::text::{decimal, push_decimal};
use crate::text_list::{push_text, texts};
use vstd::prelude::*;

verus! {

/// The refusal of a recovery that names neither a workspace nor all of them.
pub fn recover_refusal(workspace_given: bool, all: bool) -> (r: Option<&'static str>)
    ensures
        match r {
            Some(m) => !workspace_given && !all && m@
                == "either --workspace/-w or --all must be specified"@,
            None => workspace_given || all,
        },
{
    if !workspace_given && !all {
        Some("either --workspace/-w or --all must be specified")
    } else {
        None
    }
}

/// What is at stake for one workspace.
pub open spec fn stake_line(prefix: Seq<char>, path: Seq<char>, snapshots: nat) -> Seq<char> {
    prefix + path + " ("@ + decimal(snapshots) + " snapshots)"@
}

fn stake(prefix: &str, path: &str, snapshots: u32) -> (r: String)
    ensures
        r@ == stake_line(prefix@, path@, snapshots as nat),
{
    let mut m = joined(prefix, path);
    m.append(" (");
    push_decimal(&mut m, snapshots as u64);
    m.append(" snapshots)");
    m
}

/// The warning before all workspaces are recovered.
pub open spec fn batch_warning() -> Seq<char> {
    "This will delete all snapshots and restore all workspaces to normal directories.\nWARNING: ws-ckpt does NOT check for processes with cwd inside any workspace before recover.\nAny such process will have its working directory silently invalidated \u{2014} verify yourself\n(e.g. lsof +D <ws>, or ls -l /proc/*/cwd) before confirming."@
}

/// The warning before one workspace is recovered.
pub open spec fn single_warning() -> Seq<char> {
    "This will delete all snapshots and restore the workspace to a normal directory.\nWARNING: ws-ckpt does NOT check for processes with cwd inside the workspace before recover.\nAny such process will have its working directory silently invalidated \u{2014} verify yourself\n(e.g. lsof +D <ws>, or ls -l /proc/*/cwd) before confirming."@
}

/// The lines before the user is asked whether to recover all workspaces.
pub open spec fn batch_question(ws: Seq<WorkspaceInfo>) -> Seq<Seq<char>> {
    seq!["Recovering "@ + decimal(ws.len()) + " workspace(s):"@] + Seq::new(
        ws.len(),
        |i: int| stake_line("  "@, ws[i].path@, ws[i].snapshot_count as nat),
    ) + seq![batch_warning()]
}

/// The lines before the user is asked whether to recover all workspaces.
pub fn ask_batch(workspaces: &Vec<WorkspaceInfo>) -> (r: Vec<String>)
    ensures
        texts(r@) == batch_question(workspaces@),
{
    let ghost ws = workspaces@;
    let mut lines: Vec<String> = Vec::new();
    proof {
        assert(texts(lines@) =~= Seq::<Seq<char>>::empty());
    }
    let mut head = "Recovering ".to_owned();
    push_decimal(&mut head, workspaces.len() as u64);
    head.append(" workspace(s):");
    push_text(&mut lines, head);
    let ghost before = texts(lines@);
    let mut i: usize = 0;
    proof {
        assert(before =~= before + Seq::new(
            0,
            |j: int| stake_line("  "@, ws[j].path@, ws[j].snapshot_count as nat),
        ));
    }
    while i < workspaces.len()
        invariant
            i <= ws.len(),
            ws == workspaces@,
            texts(lines@) == before + Seq::new(
                i as nat,
                |j: int| stake_line("  "@, ws[j].path@, ws[j].snapshot_count as nat),
            ),
        decreases ws.len() - i,
    {
        let w = &workspaces[i];
        push_text(&mut lines, stake("  ", w.path.as_str(), w.snapshot_count));
        proof {
            assert(texts(lines@) =~= before + Seq::new(
                (i + 1) as nat,
                |j: int| stake_line("  "@, ws[j].path@, ws[j].snapshot_count as nat),
            ));
        }
        i = i + 1;
    }
    push_text(
        &mut lines,
        "This will delete all snapshots and restore all workspaces to normal directories.\nWARNING: ws-ckpt does NOT check for processes with cwd inside any workspace before recover.\nAny such process will have its working directory silently invalidated \u{2014} verify yourself\n(e.g. lsof +D <ws>, or ls -l /proc/*/cwd) before confirming.".to_owned(),
    );
    proof {
        assert(texts(lines@) =~= batch_question(ws));
    }
    lines
}

/// The lines before the user is asked whether to recover one workspace.
pub open spec fn single_question(workspace: Seq<char>, snapshots: nat) -> Seq<Seq<char>> {
    seq![stake_line("Workspace: "@, workspace, snapshots), single_warning()]
}

/// The lines before the user is asked whether to recover one workspace.
pub fn ask_single(workspace: &str, snapshots: u32) -> (r: Vec<String>)
    ensures
        texts(r@) == single_question(workspace@, snapshots as nat),
{
    let mut lines: Vec<String> = Vec::new();
    proof {
        assert(texts(lines@) =~= Seq::<Seq<char>>::empty());
    }
    push_text(&mut lines, stake("Workspace: ", workspace, snapshots));
    push_text(
        &mut lines,
        "This will delete all snapshots and restore the workspace to a normal directory.\nWARNING: ws-ckpt does NOT check for processes with cwd inside the workspace before recover.\nAny such process will have its working directory silently invalidated \u{2014} verify yourself\n(e.g. lsof +D <ws>, or ls -l /proc/*/cwd) before confirming.".to_owned(),
    );
    proof {
        assert(texts(lines@) =~= seq![
            stake_line("Workspace: "@, workspace@, snapshots as nat),
            single_warning(),
        ]);
    }
    lines
}

/// What a status response says of the number of snapshots of the workspace asked for; an error
/// stops the recovery.
pub open spec fn counted(r: Response) -> Option<u32> {
    match r {
        Response::StatusOk { report } => Some(
            if report.workspaces@.len() > 0 {
                report.workspaces@[0].snapshot_count
            } else {
                0
            },
        ),
        Response::Error { .. } => None,
        _ => Some(0),
    }
}

/// The number of snapshots of the workspace asked for, or what to show where the status could
/// not be had.
pub fn snapshot_count(status: &Response) -> (r: Result<u32, Shown>)
    ensures
        match r {
            Ok(n) => counted(*status) == Some(n),
            Err(s) => counted(*status) is None && crate::render::shows(
                s,
                failure_lines(*status).0,
                failure_lines(*status).1,
            ),
        },
{
    match status {
        Response::StatusOk { report } => {
            if report.workspaces.len() > 0 {
                Ok(report.workspaces[0].snapshot_count)
            } else {
                Ok(0)
            }
        },
        Response::Error { .. } => Err(show_failure(status)),
        _ => Ok(0),
    }
}

/// How recovering the workspaces one by one has gone.
#[derive(Debug)]
pub struct Tally {
    pub total: usize,
    pub failed: usize,
}

/// The line about one workspace of a batch, and whether it failed.
pub open spec fn batch_line(path: Seq<char>, r: Response) -> (Seq<char>, bool) {
    match r {
        Response::RecoverOk { workspace } => ("Workspace recovered: "@ + workspace@, false),
        Response::Error { code, message } => (
            "\x1b[31mError ["@ + code_text(code) + "] recovering "@ + path + ": "@ + message@
                + "\x1b[0m"@,
            true,
        ),
        _ => ("\x1b[33mUnexpected response for "@ + path + "\x1b[0m"@, true),
    }
}

/// The message about a batch of which some failed.
pub open spec fn failed_message(failed: nat, total: nat) -> Seq<char> {
    "\x1b[31mRecover failed for "@ + decimal(failed) + "/"@ + decimal(total)
        + " workspace(s); failed workspaces and their snapshots are preserved for retry."@
        + "\x1b[0m"@
}

impl Tally {
    /// A batch of which nothing was done yet.
    pub fn new(total: usize) -> (r: Self)
        ensures
            r.total == total,
            r.failed == 0,
    {
        Tally { total, failed: 0 }
    }

    /// Counts the answer for one workspace, and says what to print about it. A failure is
    /// printed to standard error.
    pub fn count(&mut self, path: &str, answer: &Response) -> (line: String)
        requires
            old(self).failed < usize::MAX,
        ensures
            line@ == batch_line(path@, *answer).0,
            final(self).total == old(self).total,
            final(self).failed == old(self).failed + if batch_line(path@, *answer).1 {
                1int
            } else {
                0
            },
    {
        match answer {
            Response::RecoverOk { workspace } => joined(
                "Workspace recovered: ",
                workspace.as_str(),
            ),
            Response::Error { code, message } => {
                self.failed = self.failed + 1;
                let mut m = joined("\x1b[31mError [", code_name(*code));
                m.append("] recovering ");
                m.append(path);
                m.append(": ");
                m.append(message.as_str());
                m.append("\x1b[0m");
                m
            },
            _ => {
                self.failed = self.failed + 1;
                let mut m = joined("\x1b[33mUnexpected response for ", path);
                m.append("\x1b[0m");
                m
            },
        }
    }

    /// What is said of the whole batch: success only where nothing failed.
    pub fn summary(&self) -> (r: Result<String, String>)
        ensures
            match r {
                Ok(m) => self.failed == 0 && m@ == "All workspaces recovered."@,
                Err(m) => self.failed > 0 && m@ == failed_message(
                    self.failed as nat,
                    self.total as nat,
                ),
            },
    {
        if self.failed == 0 {
            return Ok("All workspaces recovered.".to_owned());
        }
        let mut m = "\x1b[31mRecover failed for ".to_owned();
        push_decimal(&mut m, self.failed as u64);
        m.append("/");
        push_decimal(&mut m, self.total as u64);
        m.append(
            " workspace(s); failed workspaces and their snapshots are preserved for retry.",
        );
        m.append("\x1b[0m");
        Err(m)
    }
}

/// How far the dialogue of a recovery has come.
pub enum RecoverStage {
    /// Ask the daemon for the status of all workspaces.
    AskAll { force: bool },
    /// Ask the daemon for the status of one workspace.
    AskOne { workspace: String, force: bool },
    /// Ask the user whether to recover these workspaces.
    Confirm { targets: Vec<String>, batch: bool },
    /// Ask the daemon to recover the workspace after those that are done.
    Send { targets: Vec<String>, done: usize, tally: Tally, batch: bool },
    /// Nothing: the dialogue is over.
    Done { success: bool },
}

/// The state of a dialogue.
pub enum RecoverView {
    AskAll { force: bool },
    AskOne { workspace: Seq<char>, force: bool },
    Confirm { targets: Seq<Seq<char>>, batch: bool },
    Send { targets: Seq<Seq<char>>, done: nat, failed: nat, batch: bool },
    Done { success: bool },
}

impl View for RecoverStage {
    type V = RecoverView;

    open spec fn view(&self) -> RecoverView {
        match *self {
            RecoverStage::AskAll { force } => RecoverView::AskAll { force },
            RecoverStage::AskOne { workspace, force } => RecoverView::AskOne {
                workspace: workspace@,
                force,
            },
            RecoverStage::Confirm { targets, batch } => RecoverView::Confirm {
                targets: texts(targets@),
                batch,
            },
            RecoverStage::Send { targets, done, tally, batch } => RecoverView::Send {
                targets: texts(targets@),
                done: done as nat,
                failed: tally.failed as nat,
                batch,
            },
            RecoverStage::Done { success } => RecoverView::Done { success },
        }
    }
}

/// What came back in a dialogue: a response of the daemon, or a line that the user typed.
pub enum RecoverEvent {
    Answered(Response),
    Replied(String),
}

/// The paths of workspaces.
pub open spec fn paths_of(ws: Seq<WorkspaceInfo>) -> Seq<Seq<char>> {
    ws.map_values(|w: WorkspaceInfo| w.path@)
}

/// Texts as lines on standard output.
pub open spec fn outs(v: Seq<Seq<char>>) -> Seq<LineView> {
    v.map_values(|t: Seq<char>| out(t))
}

/// The first stage after the targets are known: the user is asked first, unless the recovery is
/// forced.
pub open spec fn to_targets(targets: Seq<Seq<char>>, force: bool, batch: bool) -> RecoverView {
    if force {
        RecoverView::Send { targets, done: 0, failed: 0, batch }
    } else {
        RecoverView::Confirm { targets, batch }
    }
}

/// The last line about a batch.
pub open spec fn summary_line(failed: nat, total: nat) -> LineView {
    if failed == 0 {
        out("All workspaces recovered."@)
    } else {
        err(failed_message(failed, total))
    }
}

/// What is printed, and how the dialogue goes on, when something came back.
pub open spec fn recover_next(stage: RecoverView, event: RecoverEvent) -> (
    Seq<LineView>,
    RecoverView,
) {
    match (stage, event) {
        (RecoverView::AskAll { force }, RecoverEvent::Answered(r)) => match r {
            Response::StatusOk { report } => {
                let ws = report.workspaces@;
                if ws.len() == 0 {
                    (seq![out("No workspaces to recover."@)], RecoverView::Done { success: true })
                } else {
                    (
                        if force {
                            seq![]
                        } else {
                            outs(batch_question(ws))
                        },
                        to_targets(paths_of(ws), force, true),
                    )
                }
            },
            _ => (failure_lines(r).0, RecoverView::Done { success: false }),
        },
        (RecoverView::AskOne { workspace, force }, RecoverEvent::Answered(r)) => match counted(r) {
            Some(n) => (
                if force {
                    seq![]
                } else {
                    outs(single_question(workspace, n as nat))
                },
                to_targets(seq![workspace], force, false),
            ),
            None => (failure_lines(r).0, RecoverView::Done { success: false }),
        },
        (RecoverView::Confirm { targets, batch }, RecoverEvent::Replied(line)) => if agrees(line@) {
            (seq![], RecoverView::Send { targets, done: 0, failed: 0, batch })
        } else {
            (seq![out("Operation cancelled."@)], RecoverView::Done { success: true })
        },
        (RecoverView::Send { targets, done, failed, batch }, RecoverEvent::Answered(r)) => {
            if batch {
                let (text, bad) = batch_line(targets[done as int], r);
                let line = LineView { to_stderr: bad, text };
                let now = failed + if bad {
                    1nat
                } else {
                    0
                };
                if done + 1 < targets.len() {
                    (
                        seq![line],
                        RecoverView::Send { targets, done: done + 1, failed: now, batch },
                    )
                } else {
                    (
                        seq![line, summary_line(now, targets.len())],
                        RecoverView::Done { success: now == 0 },
                    )
                }
            } else {
                match r {
                    Response::RecoverOk { workspace } => (
                        seq![success("Workspace recovered: "@ + workspace@)],
                        RecoverView::Done { success: true },
                    ),
                    _ => (failure_lines(r).0, RecoverView::Done { success: false }),
                }
            }
        },
        _ => (seq![], stage),
    }
}

impl RecoverView {
    /// Whether the counts of a dialogue are right: there are targets, and as many are done and
    /// failed as can be.
    pub open spec fn valid(self) -> bool {
        match self {
            RecoverView::Confirm { targets, .. } => targets.len() > 0,
            RecoverView::Send { targets, done, failed, .. } => failed <= done < targets.len(),
            _ => true,
        }
    }
}

fn to_lines(texts_: &Vec<String>) -> (r: Vec<Line>)
    ensures
        line_views(r@) == outs(texts(texts_@)),
{
    let ghost all = outs(texts(texts_@));
    let mut lines = no_lines();
    let mut i: usize = 0;
    proof {
        assert(all.take(0) =~= line_views(lines@));
    }
    while i < texts_.len()
        invariant
            i <= texts_@.len(),
            all == outs(texts(texts_@)),
            line_views(lines@) == all.take(i as int),
        decreases texts_@.len() - i,
    {
        put(&mut lines, false, texts_[i].clone());
        proof {
            assert(all.take(i + 1) =~= all.take(i as int).push(all[i as int]));
        }
        i = i + 1;
    }
    proof {
        assert(all.take(all.len() as int) =~= all);
    }
    lines
}

fn target_paths(workspaces: &Vec<WorkspaceInfo>) -> (r: Vec<String>)
    ensures
        texts(r@) == paths_of(workspaces@),
{
    let mut paths: Vec<String> = Vec::new();
    let mut i: usize = 0;
    proof {
        assert(texts(paths@) =~= paths_of(workspaces@).take(0));
    }
    while i < workspaces.len()
        invariant
            i <= workspaces@.len(),
            texts(paths@) == paths_of(workspaces@).take(i as int),
        decreases workspaces@.len() - i,
    {
        push_text(&mut paths, workspaces[i].path.clone());
        proof {
            let all = paths_of(workspaces@);
            assert(all.take(i + 1) =~= all.take(i as int).push(all[i as int]));
        }
        i = i + 1;
    }
    proof {
        assert(paths_of(workspaces@).take(workspaces@.len() as int) =~= paths_of(workspaces@));
    }
    paths
}

impl RecoverStage {
    /// Whether the counts are right.
    pub open spec fn wf(self) -> bool {
        self@.valid() && (self matches RecoverStage::Send { targets, tally, .. } ==> tally.total
            == targets@.len())
    }

    /// The first stage, or the refusal of a recovery that names neither a workspace nor all of
    /// them. All of them take precedence.
    pub fn begin(workspace: Option<String>, all: bool, force: bool) -> (r: Result<
        RecoverStage,
        &'static str,
    >)
        ensures
            match r {
                Ok(s) => s@ == if all {
                    RecoverView::AskAll { force }
                } else {
                    RecoverView::AskOne { workspace: workspace->0@, force }
                } && s.wf() && (all || workspace is Some),
                Err(m) => !all && workspace is None && m@
                    == "either --workspace/-w or --all must be specified"@,
            },
    {
        if let Some(m) = recover_refusal(workspace.is_some(), all) {
            return Err(m);
        }
        if all {
            return Ok(RecoverStage::AskAll { force });
        }
        match workspace {
            Some(workspace) => Ok(RecoverStage::AskOne { workspace, force }),
            None => Err("either --workspace/-w or --all must be specified"),
        }
    }

    fn with_targets(targets: Vec<String>, force: bool, batch: bool) -> (r: RecoverStage)
        ensures
            r@ == to_targets(texts(targets@), force, batch),
            targets@.len() > 0 ==> r.wf(),
    {
        if force {
            let tally = Tally::new(targets.len());
            RecoverStage::Send { targets, done: 0, tally, batch }
        } else {
            RecoverStage::Confirm { targets, batch }
        }
    }

    /// What to print, and how the dialogue goes on, when something came back. What was not
    /// asked for changes nothing.
    pub fn advance(self, event: RecoverEvent) -> (r: (Vec<Line>, RecoverStage))
        requires
            self.wf(),
        ensures
            line_views(r.0@) == recover_next(self@, event).0,
            r.1@ == recover_next(self@, event).1,
            r.1.wf(),
    {
        match (self, event) {
            (RecoverStage::AskAll { force }, RecoverEvent::Answered(answer)) => match &answer {
                Response::StatusOk { report } => {
                    if report.workspaces.len() == 0 {
                        let mut lines = no_lines();
                        put(&mut lines, false, "No workspaces to recover.".to_owned());
                        return (lines, RecoverStage::Done { success: true });
                    }
                    let lines = if force {
                        no_lines()
                    } else {
                        to_lines(&ask_batch(&report.workspaces))
                    };
                    let targets = target_paths(&report.workspaces);
                    (lines, Self::with_targets(targets, force, true))
                },
                _ => (show_failure(&answer).lines, RecoverStage::Done { success: false }),
            },
            (RecoverStage::AskOne { workspace, force }, RecoverEvent::Answered(answer)) => {
                match snapshot_count(&answer) {
                    Ok(n) => {
                        let lines = if force {
                            no_lines()
                        } else {
                            to_lines(&ask_single(workspace.as_str(), n))
                        };
                        let mut targets: Vec<String> = Vec::new();
                        proof {
                            assert(texts(targets@) =~= seq![]);
                        }
                        let ghost w = workspace@;
                        push_text(&mut targets, workspace);
                        proof {
                            assert(texts(targets@) =~= seq![w]);
                        }
                        (lines, Self::with_targets(targets, force, false))
                    },
                    Err(shown) => (shown.lines, RecoverStage::Done { success: false }),
                }
            },
            (RecoverStage::Confirm { targets, batch }, RecoverEvent::Replied(line)) => {
                if is_yes(line.as_str()) {
                    (no_lines(), Self::with_targets(targets, true, batch))
                } else {
                    let mut lines = no_lines();
                    put(&mut lines, false, "Operation cancelled.".to_owned());
                    (lines, RecoverStage::Done { success: true })
                }
            },
            (
                RecoverStage::Send { targets, done, tally, batch },
                RecoverEvent::Answered(answer),
            ) => {
                if !batch {
                    return match &answer {
                        Response::RecoverOk { .. } => (
                            show_response(&answer).lines,
                            RecoverStage::Done { success: true },
                        ),
                        _ => (show_failure(&answer).lines, RecoverStage::Done { success: false }),
                    };
                }
                let mut tally = tally;
                let before: usize = tally.failed;
                proof {
                    assert(texts(targets@)[done as int] == targets@[done as int]@);
                }
                let text = tally.count(targets[done].as_str(), &answer);
                let mut lines = no_lines();
                put(&mut lines, tally.failed > before, text);
                if done + 1 < targets.len() {
                    return (lines, RecoverStage::Send { targets, done: done + 1, tally, batch });
                }
                match tally.summary() {
                    Ok(m) => {
                        put(&mut lines, false, m);
                        (lines, RecoverStage::Done { success: true })
                    },
                    Err(m) => {
                        put(&mut lines, true, m);
                        (lines, RecoverStage::Done { success: false })
                    },
                }
            },
            (stage, _) => (no_lines(), stage),
        }
    }
}

/// Where a dialogue is after a number of answers.
pub open spec fn after_answers(stage: RecoverView, answers: Seq<Response>) -> RecoverView
    decreases answers.len(),
{
    if answers.len() == 0 {
        stage
    } else {
        recover_next(
            after_answers(stage, answers.drop_last()),
            RecoverEvent::Answered(answers.last()),
        ).1
    }
}

/// How many of the answers are no success.
pub open spec fn failures(answers: Seq<Response>) -> nat
    decreases answers.len(),
{
    if answers.len() == 0 {
        0
    } else {
        failures(answers.drop_last()) + if answers.last() is RecoverOk {
            0nat
        } else {
            1
        }
    }
}

proof fn lemma_batch_progress(targets: Seq<Seq<char>>, answers: Seq<Response>)
    requires
        answers.len() < targets.len(),
    ensures
        after_answers(
            RecoverView::Send { targets, done: 0, failed: 0, batch: true },
            answers,
        ) == (RecoverView::Send {
            targets,
            done: answers.len(),
            failed: failures(answers),
            batch: true,
        }),
    decreases answers.len(),
{
    if answers.len() > 0 {
        lemma_batch_progress(targets, answers.drop_last());
    }
}

/// A batch asks the daemon once for each workspace, and ends successfully only if each of them
/// was recovered: a batch that failed in part does not look successful.
pub proof fn lemma_batch_succeeds_iff_all_do(targets: Seq<Seq<char>>, answers: Seq<Response>)
    requires
        0 < targets.len() == answers.len(),
    ensures
        after_answers(
            RecoverView::Send { targets, done: 0, failed: 0, batch: true },
            answers,
        ) == (RecoverView::Done { success: failures(answers) == 0 }),
        failures(answers) == 0 <==> forall|i: int|
            0 <= i < answers.len() ==> (#[trigger] answers[i]) is RecoverOk,
{
    lemma_batch_progress(targets, answers.drop_last());
    lemma_failures(answers);
}

proof fn lemma_failures(answers: Seq<Response>)
    ensures
        failures(answers) == 0 <==> forall|i: int|
            0 <= i < answers.len() ==> (#[trigger] answers[i]) is RecoverOk,
    decreases answers.len(),
{
    if answers.len() > 0 {
        let front = answers.drop_last();
        lemma_failures(front);
        assert forall|i: int| 0 <= i < front.len() implies #[trigger] front[i] == answers[i] by {}
        if failures(answers) == 0 {
            assert forall|i: int| 0 <= i < answers.len() implies (#[trigger] answers[i])
                is RecoverOk by {
                if i < front.len() {
                    assert(front[i] is RecoverOk);
                }
            }
        } else if forall|i: int| 0 <= i < answers.len() ==> (#[trigger] answers[i]) is RecoverOk {
            assert(answers[answers.len() - 1] is RecoverOk);
            assert forall|i: int| 0 <= i < front.len() implies (#[trigger] front[i]) is RecoverOk by {
                assert(answers[i] is RecoverOk);
            }
        }
    }
}

/// The daemon is asked to recover a workspace only if the recovery was forced or the user
/// agreed.
pub proof fn lemma_recovery_needs_consent(stage: RecoverView, event: RecoverEvent)
    requires
        recover_next(stage, event).1 is Send,
    ensures
        stage is Send || (stage matches RecoverView::AskAll { force } && force) || (stage
            matches RecoverView::AskOne { force, .. } && force) || (stage is Confirm && (event
            matches RecoverEvent::Replied(line) && agrees(line@))),
{
}

} // verus!
