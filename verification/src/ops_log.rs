//! Records of the operations log.

use crate::message::{Request, Response};
use crate::text::{decimal, push_decimal, push_signed, signed_decimal, str_eq};
use vstd::prelude::*;
use vstd::utf8::encode_utf8;

verus! {

/// Under which name a request is logged; requests without a name are not logged.
pub open spec fn ops_name(req: Request) -> Option<Seq<char>> {
    match req {
        Request::Checkpoint { .. } | Request::GuardedCheckpointV2 { .. } => Some("ckpt"@),
        Request::Rollback { .. } => Some("roll"@),
        Request::Diff { .. } => Some("diff"@),
        Request::List { .. } => Some("list"@),
        Request::ListPage { .. } => Some("list_page"@),
        Request::Config
        | Request::ReloadConfig
        | Request::ReloadGlobalConfig
        | Request::ConfigOverview
        | Request::GetWorkspacePolicy { .. }
        | Request::ResetWorkspacePolicy { .. }
        | Request::PatchWorkspacePolicy { .. }
        | Request::ReloadWorkspacePolicy { .. } => Some("config"@),
        _ => None,
    }
}

/// Under which name a request is logged.
pub fn ops_name_from_request(req: &Request) -> (r: Option<&'static str>)
    ensures
        crate::text_list::opt_str(r) == ops_name(*req),
{
    match req {
        Request::Checkpoint { .. } | Request::GuardedCheckpointV2 { .. } => Some("ckpt"),
        Request::Rollback { .. } => Some("roll"),
        Request::Diff { .. } => Some("diff"),
        Request::List { .. } => Some("list"),
        Request::ListPage { .. } => Some("list_page"),
        Request::Config
        | Request::ReloadConfig
        | Request::ReloadGlobalConfig
        | Request::ConfigOverview
        | Request::GetWorkspacePolicy { .. }
        | Request::ResetWorkspacePolicy { .. }
        | Request::PatchWorkspacePolicy { .. }
        | Request::ReloadWorkspacePolicy { .. } => Some("config"),
        _ => None,
    }
}

/// The bytes before the first NUL.
pub open spec fn first_entry(data: Seq<u8>) -> Seq<u8>
    decreases data.len(),
{
    if data.len() == 0 || data[0] == 0 {
        Seq::empty()
    } else {
        seq![data[0]] + first_entry(data.drop_first())
    }
}

/// The value of the first of the NUL-separated entries that begins with `key`.
pub open spec fn entry_value(data: Seq<u8>, key: Seq<u8>) -> Option<Seq<u8>>
    decreases data.len(),
{
    let e = first_entry(data);
    if key.is_prefix_of(e) {
        Some(e.skip(key.len() as int))
    } else if e.len() >= data.len() {
        None
    } else {
        entry_value(data.skip(e.len() as int + 1), key)
    }
}

/// The agent that a process environment names: `user` where it names none, and `unknown` where
/// it names one that is not known.
pub open spec fn agent_name(environ: Option<Seq<u8>>) -> Seq<char> {
    match environ {
        None => "user"@,
        Some(data) => match entry_value(data, encode_utf8("WS_CKPT_AGENT_NAME="@)) {
            None => "user"@,
            Some(v) => if v == encode_utf8("user"@) {
                "user"@
            } else if v == encode_utf8("hermes"@) {
                "hermes"@
            } else if v == encode_utf8("openclaw"@) {
                "openclaw"@
            } else {
                "unknown"@
            },
        },
    }
}

proof fn lemma_first_entry(data: Seq<u8>, i: int)
    requires
        0 <= i <= data.len(),
        forall|j: int| 0 <= j < i ==> data[j] != 0,
        i < data.len() ==> data[i] == 0,
    ensures
        first_entry(data) == data.take(i),
    decreases i,
{
    if i == 0 {
        assert(data.take(0) =~= Seq::<u8>::empty());
    } else {
        lemma_first_entry(data.drop_first(), i - 1);
        assert(data.take(i) =~= seq![data[0]] + data.drop_first().take(i - 1));
    }
}

/// Whether the bytes `from..to` of `data` are `expected`.
fn range_is(data: &Vec<u8>, from: usize, to: usize, expected: &[u8]) -> (r: bool)
    requires
        from <= to <= data@.len(),
    ensures
        r == (data@.subrange(from as int, to as int) == expected@),
{
    if to - from != expected.len() {
        return false;
    }
    let mut i: usize = 0;
    while i < expected.len()
        invariant
            from <= to <= data@.len(),
            to - from == expected@.len(),
            i <= expected@.len(),
            forall|j: int| 0 <= j < i ==> data@[from + j] == expected@[j],
        decreases expected@.len() - i,
    {
        if data[from + i] != expected[i] {
            proof {
                assert(data@.subrange(from as int, to as int)[i as int] != expected@[i as int]);
            }
            return false;
        }
        i = i + 1;
    }
    proof {
        assert(data@.subrange(from as int, to as int) =~= expected@);
    }
    true
}

/// The agent that issued a request, from its process environment where that could be read.
pub fn detect_agent_name(environ: Option<Vec<u8>>) -> (r: String)
    ensures
        r@ == agent_name(
            match environ {
                Some(d) => Some(d@),
                None => None,
            },
        ),
{
    let data = match environ {
        Some(d) => d,
        None => {
            return "user".to_owned();
        },
    };
    let key = "WS_CKPT_AGENT_NAME=".as_bytes();
    let ghost kv = key@;
    let mut start: usize = 0;
    proof {
        assert(data@.skip(0) =~= data@);
    }
    loop
        invariant
            environ == Some(data),
            key@ == kv,
            kv == encode_utf8("WS_CKPT_AGENT_NAME="@),
            start <= data@.len(),
            entry_value(data@, kv) == entry_value(data@.skip(start as int), kv),
        decreases data@.len() - start,
    {
        let mut end: usize = start;
        while end < data.len() && data[end] != 0
            invariant
                start <= end <= data@.len(),
                forall|j: int| start <= j < end ==> data@[j] != 0,
            decreases data@.len() - end,
        {
            end = end + 1;
        }
        let ghost rest = data@.skip(start as int);
        proof {
            lemma_first_entry(rest, end - start);
            assert(rest.take(end - start) =~= data@.subrange(start as int, end as int));
        }
        let ghost entry = data@.subrange(start as int, end as int);
        if end - start >= key.len() && range_is(&data, start, start + key.len(), key) {
            let from: usize = start + key.len();
            proof {
                assert(entry.subrange(0, kv.len() as int) =~= data@.subrange(
                    start as int,
                    start + kv.len(),
                ));
                assert(entry.skip(kv.len() as int) =~= data@.subrange(from as int, end as int));
            }
            if range_is(&data, from, end, "user".as_bytes()) {
                return "user".to_owned();
            }
            if range_is(&data, from, end, "hermes".as_bytes()) {
                return "hermes".to_owned();
            }
            if range_is(&data, from, end, "openclaw".as_bytes()) {
                return "openclaw".to_owned();
            }
            return "unknown".to_owned();
        }
        proof {
            if kv.is_prefix_of(entry) {
                assert(entry.subrange(0, kv.len() as int) =~= data@.subrange(
                    start as int,
                    start + kv.len(),
                ));
            }
        }
        if end == data.len() {
            return "user".to_owned();
        }
        proof {
            assert(rest.skip(entry.len() as int + 1) =~= data@.skip(end + 1));
        }
        start = end + 1;
    }
}

/// The identifier of a logged operation: the time in milliseconds, the process, and the number
/// of the operation in it.
pub fn ops_id(millis: i64, pid: u32, seq: u64) -> (r: String)
    ensures
        r@ == signed_decimal(millis as int) + "-"@ + decimal(pid as nat) + "-"@ + decimal(
            seq as nat,
        ),
{
    let mut m = String::new();
    push_signed(&mut m, millis);
    proof {
        assert(m@ =~= signed_decimal(millis as int));
    }
    m.append("-");
    push_decimal(&mut m, pid as u64);
    m.append("-");
    push_decimal(&mut m, seq);
    m
}

/// One line of the operations log.
#[derive(Debug, PartialEq, Eq)]
pub struct OpsRecord {
    pub component_name: &'static str,
    pub component_version: String,
    pub component_agent_name: String,
    pub ops_id: String,
    pub ops_name: String,
    pub ckpt_time: u32,
    pub roll_time: u32,
    pub diff_time: u32,
    pub list_time: u32,
    pub ops_time: u32,
    /// Whether a page was the last; absent where that is unknown or does not apply.
    pub list_page_last: Option<bool>,
    pub err_reason: String,
    pub supply: &'static str,
}

/// Why a response failed, as it is logged.
pub open spec fn failure_reason(response: Response) -> Seq<char> {
    match response {
        Response::Error { message, .. } => message@,
        Response::GuardedCheckpointV2Rejected { message, .. } => message@,
        _ => "none"@,
    }
}

/// Whether a response ends a page traversal; none where it is no page.
pub open spec fn ends_traversal(response: Response) -> Option<bool> {
    match response {
        Response::ListPageOk { next_cursor, .. } => Some(next_cursor is None),
        Response::ListPageSummaryOk { next_cursor, .. } => Some(next_cursor is None),
        _ => None,
    }
}

/// One where the operation has that name, and zero elsewhere.
pub open spec fn counts_as(ops_name: Seq<char>, name: Seq<char>) -> u32 {
    if ops_name == name {
        1
    } else {
        0
    }
}

fn count_if(b: bool) -> (r: u32)
    ensures
        r == if b {
            1u32
        } else {
            0u32
        },
{
    if b {
        1
    } else {
        0
    }
}

/// Builds the log record of an operation.
pub fn build_record(
    ops_name: &str,
    agent_name: &str,
    response: &Response,
    ops_id: String,
    version: &str,
) -> (r: OpsRecord)
    ensures
        r.component_name@ == "ws-ckpt"@,
        r.component_version@ == version@,
        r.component_agent_name@ == agent_name@,
        r.ops_id@ == ops_id@,
        r.ops_name@ == ops_name@,
        r.ckpt_time == counts_as(ops_name@, "ckpt"@),
        r.roll_time == counts_as(ops_name@, "roll"@),
        r.diff_time == counts_as(ops_name@, "diff"@),
        r.list_time == if ops_name@ == "list"@ || ops_name@ == "list_page"@ {
            1u32
        } else {
            0u32
        },
        r.ops_time == 1,
        r.list_page_last == if ops_name@ == "list_page"@ {
            ends_traversal(*response)
        } else {
            None
        },
        r.err_reason@ == failure_reason(*response),
        r.supply@ == "none"@,
{
    let err_reason = match response {
        Response::Error { message, .. } => message.clone(),
        Response::GuardedCheckpointV2Rejected { message, .. } => message.clone(),
        _ => "none".to_owned(),
    };
    let list_page_last = if str_eq(ops_name, "list_page") {
        match response {
            Response::ListPageOk { next_cursor, .. } => Some(next_cursor.is_none()),
            Response::ListPageSummaryOk { next_cursor, .. } => Some(next_cursor.is_none()),
            _ => None,
        }
    } else {
        None
    };
    OpsRecord {
        component_name: "ws-ckpt",
        component_version: version.to_owned(),
        component_agent_name: agent_name.to_owned(),
        ops_id,
        ops_name: ops_name.to_owned(),
        ckpt_time: count_if(str_eq(ops_name, "ckpt")),
        roll_time: count_if(str_eq(ops_name, "roll")),
        diff_time: count_if(str_eq(ops_name, "diff")),
        list_time: count_if(str_eq(ops_name, "list") || str_eq(ops_name, "list_page")),
        ops_time: 1,
        list_page_last,
        err_reason,
        supply: "none",
    }
}

/// Whether an operation is recorded: the log is there, and nothing disables it.
pub fn writes_record(gate_present: bool, log_present: bool) -> (r: bool)
    ensures
        r == (log_present && !gate_present),
{
    log_present && !gate_present
}

} // verus!
