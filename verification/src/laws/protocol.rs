//! Promises about frames, how requests are carried out, and what is logged of them.

use crate::config::WsCkptError;
use crate::dispatch::{
    after_auto_init, after_failure, next_action, Action, DispatchContext, Stage,
};
use crate::frame::{
    accept_request_length, accept_response_length, encode_frame, frame_length, unsendable_response,
};
use crate::laws::display::{ends_with, holds, lemma_stands};
use crate::laws::policies::repeats;
use crate::laws::workspaces::{is_error_of, tells_policy};
use crate::message::{ErrorCode, Request, Response};
use crate::ops_log::{
    build_record, detect_agent_name, ops_id, ops_name_from_request, writes_record, OpsRecord,
};
use crate::registry::WorkspaceState;
use crate::state::DaemonState;
use crate::text::{decimal, signed_decimal};
use vstd::prelude::*;
use vstd::utf8::encode_utf8;

verus! {

/// A payload of at most 16 MiB is framed behind four bytes of its length, the least significant
/// first, and reading these bytes gives its length back. A larger one is refused, with its size.
pub proof fn lemma_frames_carry_their_payload(
    payload: Vec<u8>,
    r: Result<Vec<u8>, WsCkptError>,
    prefix: [u8; 4],
    n: Result<u32, WsCkptError>,
)
    requires
        call_ensures(encode_frame, (&payload,), r),
        r matches Ok(f) ==> prefix@ == f@.take(4),
        call_ensures(frame_length, (prefix,), n),
    ensures
        r is Ok <==> payload@.len() <= 16 * 1024 * 1024,
        r matches Ok(f) ==> {
            &&& f@.len() == payload@.len() + 4
            &&& f@.skip(4) == payload@
            &&& f@[0] + 256 * f@[1] + 65536 * f@[2] + 16777216 * f@[3] == payload@.len()
            &&& n matches Ok(k) && k == payload@.len()
        },
        r matches Err(e) ==> (e matches WsCkptError::FrameTooLarge { size, max } && size
            == payload@.len() && max == 16 * 1024 * 1024),
{
    if let Ok(f) = r {
        crate::frame::lemma_frame_reads_back(payload@);
        let l = payload@.len();
        assert(f@.take(4) == (crate::frame::length_prefix(l) + payload@).take(4));
        assert(f@.take(4)[0] == f@[0] && f@.take(4)[1] == f@[1] && f@.take(4)[2] == f@[2]
            && f@.take(4)[3] == f@[3]);
    }
}

/// The same lengths are taken wherever they are read: those of at most 16 MiB.
pub proof fn lemma_lengths_are_bounded(
    prefix: [u8; 4],
    n: Result<u32, WsCkptError>,
    q: Result<u32, Response>,
    p: Result<u32, String>,
)
    requires
        call_ensures(frame_length, (prefix,), n),
        call_ensures(accept_request_length, (prefix,), q),
        call_ensures(accept_response_length, (prefix,), p),
    ensures
        ({
            let l = prefix@[0] + 256 * prefix@[1] + 65536 * prefix@[2] + 16777216 * prefix@[3];
            &&& n is Ok <==> l <= 16 * 1024 * 1024
            &&& q is Ok <==> l <= 16 * 1024 * 1024
            &&& p is Ok <==> l <= 16 * 1024 * 1024
            &&& n matches Ok(k) ==> k == l
            &&& q matches Ok(k) ==> k == l
            &&& p matches Ok(k) ==> k == l
            &&& n matches Err(e) ==> (e matches WsCkptError::FrameTooLarge { size, max } && size
                == l && max == 16 * 1024 * 1024)
            &&& q matches Err(e) ==> is_error_of(e, ErrorCode::InternalError)
        }),
{
}

/// What cannot be sent is answered by an internal error with the reason; a list is advised to be
/// paged, and only a list is.
pub proof fn lemma_unsendable_responses(
    response: Response,
    error: WsCkptError,
    reason: String,
    r: Response,
)
    requires
        call_ensures(unsendable_response, (&response, &error), r),
        call_ensures(WsCkptError::to_text, (&error,), reason),
    ensures
        r matches Response::Error { code, message } && {
            &&& code == ErrorCode::InternalError
            &&& holds(message@, reason@)
            &&& response is ListOk <==> ends_with(
                message@,
                "Use paginated listing or request snapshot counts."@,
            )
        },
{
    reveal_strlit("Use paginated listing or request snapshot counts.");
    reveal_strlit("The request may already have completed; check its outcome before retrying.");
    let m = crate::frame::unsendable_message(response is ListOk, error);
    let t = error.text();
    let a = "Use paginated listing or request snapshot counts."@;
    let b = "The request may already have completed; check its outcome before retrying."@;
    let tail = if response is ListOk {
        a
    } else {
        b
    };
    let p = "Failed to encode response: "@;
    lemma_stands(m, p, t, ". "@ + tail);
    let h = p + t + ". "@;
    assert(m =~= h + tail);
    assert(m.skip(h.len() as int) =~= tail);
    if !(response is ListOk) && ends_with(m, a) {
        assert(m.skip(m.len() - a.len())[a.len() - 2] == m[m.len() - 2]);
        assert(a[a.len() - 2] == 's');
        assert(m[m.len() - 2] == b[b.len() - 2]);
        assert(b[b.len() - 2] == 'g');
        assert(false);
    }
}

/// The storage is brought up first exactly for the requests that work on it; a checkpoint looks its
/// workspace up, and initializes it exactly where it is not registered; and nothing else is ever
/// initialized on the way.
pub proof fn lemma_requests_are_prepared(
    req: Request,
    registered: bool,
    first: Action,
    up: Action,
    looked: Action,
    last: Action,
)
    requires
        call_ensures(next_action, (&req, Stage::Start), first),
        call_ensures(next_action, (&req, Stage::StorageUp), up),
        call_ensures(next_action, (&req, (Stage::LookedUp { registered })), looked),
        call_ensures(next_action, (&req, Stage::Initialized), last),
    ensures
        first == Action::BringUpStorage <==> req is Init || req is Checkpoint || req is Rollback
            || req is RollbackPreview || req is Delete || req is Diff || req is Cleanup || req
            is Recover,
        first == Action::BringUpStorage || first == Action::Perform,
        up == Action::LookUpWorkspace <==> req is Checkpoint,
        up == Action::LookUpWorkspace || up == Action::Perform,
        looked == Action::Initialize <==> req is Checkpoint && !registered,
        looked == Action::Initialize || looked == Action::Perform,
        last == Action::Perform,
{
}

/// A checkpoint goes ahead after its workspace was initialized, now or meanwhile; any other answer
/// is passed on as it is.
pub proof fn lemma_first_use(answer: Response, r: Option<Response>)
    requires
        call_ensures(after_auto_init, (answer,), r),
    ensures
        r is None <==> answer is InitOk || is_error_of(answer, ErrorCode::AlreadyInitialized),
        r matches Some(a) ==> a == answer,
{
}

/// A failure is answered by an internal error with its reasons.
pub proof fn lemma_failures_are_answered(reasons: &str, r: Response)
    requires
        call_ensures(after_failure, (reasons,), r),
    ensures
        r matches Response::Error { code, message } && code == ErrorCode::InternalError && message@
            == reasons@,
{
}

/// What the daemon answers from memory is what it answers elsewhere: the configuration, a policy,
/// and evidence, which goes to the user at the other end of the connection.
pub proof fn lemma_memory_answers(
    state: DaemonState,
    req: Request,
    uid: Option<u32>,
    context: DispatchContext,
    canonical: Option<&str>,
    text: &str,
    found: Option<&WorkspaceState>,
    r: Option<Response>,
)
    requires
        call_ensures(DispatchContext::new, (uid,), context),
        call_ensures(DaemonState::answer_from_memory, (&state, &req, context, canonical), r),
        req matches Request::GetWorkspacePolicy { workspace } ==> text@ == workspace@
            && call_ensures(DaemonState::resolve_workspace, (&state, text, canonical), found),
    ensures
        r is Some <==> req is Config || req is ConfigOverview || req is GetWorkspacePolicy || req
            is CheckpointEvidenceV2,
        req is Config ==> (r matches Some(Response::ConfigOk { config }) && repeats(
            config,
            state.config,
        )),
        req is ConfigOverview ==> (r matches Some(
            Response::ConfigOverviewOk { config, ws_total, .. },
        ) && repeats(config, state.config) && ws_total == state.registry@.by_id.len()),
        req is GetWorkspacePolicy ==> (match found {
            Some(w) => tells_policy(r->0, w.ws_id@, w.policy@, state.config),
            None => is_error_of(r->0, ErrorCode::WorkspaceNotFound),
        }),
        req is CheckpointEvidenceV2 && uid is None ==> r->0 is GuardedCheckpointV2Rejected,
        req matches Request::CheckpointEvidenceV2 { ws_id, checkpoint_id, .. } ==> (r
            matches Some(Response::CheckpointEvidenceV2Ok { evidence }) ==> (evidence
            matches Some(e) ==> uid == Some(e.caller_uid) && e.ws_id@ == ws_id@ && e.checkpoint_id@
            == checkpoint_id@)),
{
}

/// A request is logged under the name of what it does, and only the requests that the log is for
/// are; the names of different operations differ.
pub proof fn lemma_operations_have_names(req: Request, r: Option<&'static str>)
    requires
        call_ensures(ops_name_from_request, (&req,), r),
    ensures
        r matches Some(n) && n@ == seq!['c', 'k', 'p', 't'] <==> req is Checkpoint || req
            is GuardedCheckpointV2,
        r matches Some(n) && n@ == seq!['r', 'o', 'l', 'l'] <==> req is Rollback,
        r matches Some(n) && n@ == seq!['d', 'i', 'f', 'f'] <==> req is Diff,
        r matches Some(n) && n@ == seq!['l', 'i', 's', 't'] <==> req is List,
        r matches Some(n) && n@ == seq!['l', 'i', 's', 't', '_', 'p', 'a', 'g', 'e'] <==> req
            is ListPage,
        r matches Some(n) && n@ == seq!['c', 'o', 'n', 'f', 'i', 'g'] <==> req is Config || req
            is ReloadConfig || req is ReloadGlobalConfig || req is ConfigOverview || req
            is GetWorkspacePolicy || req is ResetWorkspacePolicy || req is PatchWorkspacePolicy
            || req is ReloadWorkspacePolicy,
        r is None ==> !(req is Checkpoint || req is Rollback || req is Diff || req is List),
        req is Init || req is Delete || req is Status || req is Cleanup || req is RollbackPreview
            ==> r is None,
{
    lemma_log_names();
    if let Some(n) = r {
        let s = n@;
        assert(s.len() == 4 || s.len() == 6 || s.len() == 9);
    }
}

proof fn lemma_log_names()
    ensures
        "ckpt"@ == seq!['c', 'k', 'p', 't'],
        "roll"@ == seq!['r', 'o', 'l', 'l'],
        "diff"@ == seq!['d', 'i', 'f', 'f'],
        "list"@ == seq!['l', 'i', 's', 't'],
        "list_page"@ == seq!['l', 'i', 's', 't', '_', 'p', 'a', 'g', 'e'],
        "config"@ == seq!['c', 'o', 'n', 'f', 'i', 'g'],
        "ckpt"@.len() == 4 && "roll"@.len() == 4 && "diff"@.len() == 4 && "list"@.len() == 4,
        "list_page"@.len() == 9 && "config"@.len() == 6,
        "ckpt"@[0] == 'c' && "roll"@[0] == 'r' && "diff"@[0] == 'd' && "list"@[0] == 'l',
{
    reveal_strlit("ckpt");
    reveal_strlit("roll");
    reveal_strlit("diff");
    reveal_strlit("list");
    reveal_strlit("list_page");
    reveal_strlit("config");
    assert("ckpt"@ =~= seq!['c', 'k', 'p', 't']);
    assert("roll"@ =~= seq!['r', 'o', 'l', 'l']);
    assert("diff"@ =~= seq!['d', 'i', 'f', 'f']);
    assert("list"@ =~= seq!['l', 'i', 's', 't']);
    assert("list_page"@ =~= seq!['l', 'i', 's', 't', '_', 'p', 'a', 'g', 'e']);
    assert("config"@ =~= seq!['c', 'o', 'n', 'f', 'i', 'g']);
}

/// A record says who did what, counts it as what it is and as nothing else, and gives the reason
/// where it failed. Only a page says whether it was the last.
pub proof fn lemma_records_count_what_happened(
    name: &str,
    agent: &str,
    response: Response,
    id: String,
    version: &str,
    r: OpsRecord,
)
    requires
        call_ensures(build_record, (name, agent, &response, id, version), r),
    ensures
        r.component_name@ == "ws-ckpt"@,
        r.supply@ == "none"@,
        r.component_version@ == version@,
        r.component_agent_name@ == agent@,
        r.ops_id@ == id@,
        r.ops_name@ == name@,
        r.ops_time == 1,
        r.ckpt_time + r.roll_time + r.diff_time + r.list_time <= 1,
        r.ckpt_time == 1 <==> name@ == seq!['c', 'k', 'p', 't'],
        r.roll_time == 1 <==> name@ == seq!['r', 'o', 'l', 'l'],
        r.diff_time == 1 <==> name@ == seq!['d', 'i', 'f', 'f'],
        r.list_time == 1 <==> name@ == seq!['l', 'i', 's', 't'] || name@ == seq![
            'l',
            'i',
            's',
            't',
            '_',
            'p',
            'a',
            'g',
            'e',
        ],
        response matches Response::Error { message, .. } ==> r.err_reason@ == message@,
        response matches Response::GuardedCheckpointV2Rejected { message, .. } ==> r.err_reason@
            == message@,
        !(response is Error) && !(response is GuardedCheckpointV2Rejected) ==> r.err_reason@
            == "none"@,
        r.list_page_last is Some ==> name@ == "list_page"@ && (response is ListPageOk || response
            is ListPageSummaryOk),
        name@ == "list_page"@ ==> (response matches Response::ListPageOk { next_cursor, .. }
            ==> r.list_page_last == Some(next_cursor is None)),
        name@ == "list_page"@ ==> (response matches Response::ListPageSummaryOk { next_cursor, .. }
            ==> r.list_page_last == Some(next_cursor is None)),
{
    lemma_log_names();
}

/// An operation is recorded exactly where the log is there and nothing disables it.
pub proof fn lemma_records_can_be_disabled(gate: bool, log: bool, r: bool)
    requires
        call_ensures(writes_record, (gate, log), r),
    ensures
        r ==> log && !gate,
        log && !gate ==> r,
{
}

/// An operation's identifier has its time, its process and its number, in that order.
pub proof fn lemma_operation_identifiers(millis: i64, pid: u32, number: u64, r: String)
    requires
        call_ensures(ops_id, (millis, pid, number), r),
    ensures
        r@ == signed_decimal(millis as int) + seq!['-'] + decimal(pid as nat) + seq!['-'] + decimal(
            number as nat,
        ),
{
    reveal_strlit("-");
    assert("-"@ =~= seq!['-']);
}

proof fn lemma_whole_entry(data: Seq<u8>, i: int)
    requires
        0 <= i <= data.len(),
        forall|j: int| 0 <= j < i ==> #[trigger] data[j] != 0,
        i < data.len() ==> data[i] == 0,
    ensures
        crate::ops_log::first_entry(data) == data.take(i),
    decreases i,
{
    if i == 0 {
        assert(data.take(0) =~= Seq::<u8>::empty());
    } else {
        let d = data.drop_first();
        assert forall|j: int| 0 <= j < i - 1 implies #[trigger] d[j] != 0 by {
            assert(d[j] == data[j + 1]);
        }
        if i < data.len() {
            assert(d[i - 1] == data[i]);
        }
        assert(data[0] != 0);
        lemma_whole_entry(d, i - 1);
        assert(seq![data[0]] + d.take(i - 1) =~= data.take(i));
    }
}

/// An agent is known by the value of its entry in the environment: the names that are known stand
/// for themselves, and any other for an unknown one. Without an environment it is the user.
pub proof fn lemma_agents_are_known_by_name(
    value: Seq<u8>,
    environ: Vec<u8>,
    r: String,
    none: String,
)
    requires
        environ@ == encode_utf8("WS_CKPT_AGENT_NAME="@) + value,
        forall|i: int| 0 <= i < environ@.len() ==> #[trigger] environ@[i] != 0,
        call_ensures(detect_agent_name, (Some(environ),), r),
        call_ensures(detect_agent_name, (None::<Vec<u8>>,), none),
    ensures
        none@ == "user"@,
        value == encode_utf8("user"@) ==> r@ == "user"@,
        value == encode_utf8("hermes"@) ==> r@ == "hermes"@,
        value == encode_utf8("openclaw"@) ==> r@ == "openclaw"@,
        value != encode_utf8("user"@) && value != encode_utf8("hermes"@) && value != encode_utf8(
            "openclaw"@,
        ) ==> r@ == "unknown"@,
{
    let d = environ@;
    let key = encode_utf8("WS_CKPT_AGENT_NAME="@);
    lemma_whole_entry(d, d.len() as int);
    assert(d.take(d.len() as int) =~= d);
    assert(d.subrange(0, key.len() as int) =~= key);
    assert(d.skip(key.len() as int) =~= value);
    assert(crate::ops_log::entry_value(d, key) == Some(value));
    assert(encode_utf8("user"@) == encode_utf8("hermes"@) ==> "user"@ == "hermes"@) by {
        if encode_utf8("user"@) == encode_utf8("hermes"@) {
            crate::text::lemma_encoding_is_injective("user"@, "hermes"@);
        }
    }
    assert(encode_utf8("user"@) == encode_utf8("openclaw"@) ==> "user"@ == "openclaw"@) by {
        if encode_utf8("user"@) == encode_utf8("openclaw"@) {
            crate::text::lemma_encoding_is_injective("user"@, "openclaw"@);
        }
    }
    assert(encode_utf8("hermes"@) == encode_utf8("openclaw"@) ==> "hermes"@ == "openclaw"@) by {
        if encode_utf8("hermes"@) == encode_utf8("openclaw"@) {
            crate::text::lemma_encoding_is_injective("hermes"@, "openclaw"@);
        }
    }
}

/// Entries of the environment before that of the agent make no difference.
pub proof fn lemma_other_entries_make_no_difference(
    entry: Seq<u8>,
    rest: Vec<u8>,
    whole: Vec<u8>,
    a: String,
    b: String,
)
    requires
        whole@ == entry.push(0) + rest@,
        forall|i: int| 0 <= i < entry.len() ==> #[trigger] entry[i] != 0,
        !encode_utf8("WS_CKPT_AGENT_NAME="@).is_prefix_of(entry),
        call_ensures(detect_agent_name, (Some(rest),), a),
        call_ensures(detect_agent_name, (Some(whole),), b),
    ensures
        a@ == b@,
{
    let d = whole@;
    let n = entry.len() as int;
    assert forall|j: int| 0 <= j < n implies #[trigger] d[j] != 0 by {
        assert(d[j] == entry[j]);
    }
    assert(d[n] == 0);
    lemma_whole_entry(d, n);
    assert(d.take(n) =~= entry);
    assert(d.skip(n + 1) =~= rest@);
}

/// The first entry that names an agent counts, whatever comes after it.
pub proof fn lemma_the_first_agent_counts(
    entry: Vec<u8>,
    rest: Seq<u8>,
    whole: Vec<u8>,
    a: String,
    b: String,
)
    requires
        encode_utf8("WS_CKPT_AGENT_NAME="@).is_prefix_of(entry@),
        forall|i: int| 0 <= i < entry@.len() ==> #[trigger] entry@[i] != 0,
        whole@ == entry@.push(0) + rest,
        call_ensures(detect_agent_name, (Some(entry),), a),
        call_ensures(detect_agent_name, (Some(whole),), b),
    ensures
        a@ == b@,
{
    let d = whole@;
    let n = entry@.len() as int;
    assert forall|j: int| 0 <= j < n implies #[trigger] d[j] != 0 by {
        assert(d[j] == entry@[j]);
    }
    assert(d[n] == 0);
    lemma_whole_entry(d, n);
    assert(d.take(n) =~= entry@);
    lemma_whole_entry(entry@, n);
    assert(entry@.take(n) =~= entry@);
}

} // verus!
