use ws_ckpt::config::WsCkptError;
use ws_ckpt::frame::{
    accept_request_length, accept_response_length, encode_frame, frame_length,
    unsendable_response, MAX_FRAME_SIZE,
};
use ws_ckpt::message::{
    ChangeType, DiffEntry, ErrorCode, Request, Response, StatusReport, WorkspaceInfo,
};
use ws_ckpt::ops_log::{
    build_record, detect_agent_name, ops_id, ops_name_from_request, writes_record, OpsRecord,
};
use ws_ckpt::snapshot::{
    SnapshotSummary, SnapshotSummaryMeta, Timestamp, WorkspaceGenerationTokenV2,
};

fn init_payload(workspace: &str) -> Vec<u8> {
    bincode::serialize(&(0u32, workspace)).unwrap()
}

#[test]
fn encode_frame_length_prefix_is_le() {
    let frame = encode_frame(&init_payload("/tmp/test")).expect("encode_frame failed");
    let len_bytes: [u8; 4] = frame[..4].try_into().unwrap();
    let encoded_len = u32::from_le_bytes(len_bytes) as usize;
    assert_eq!(frame.len() - 4, encoded_len);
}

#[test]
fn encode_frame_payload_matches_bincode() {
    let payload = init_payload("/hello");
    let frame = encode_frame(&payload).unwrap();
    assert_eq!(&frame[4..], &payload[..]);
}

#[test]
fn encode_frame_enforces_exact_payload_boundary() {
    for size in [MAX_FRAME_SIZE - 1, MAX_FRAME_SIZE, MAX_FRAME_SIZE + 1] {
        let message = "x".repeat(size as usize - 8);
        let payload = bincode::serialize(&message).unwrap();
        assert_eq!(payload.len(), size as usize);
        match encode_frame(&payload) {
            Ok(frame) => {
                assert!(size <= MAX_FRAME_SIZE);
                assert_eq!(frame.len(), size as usize + 4);
                assert_eq!(bincode::deserialize::<String>(&frame[4..]).unwrap(), message);
            }
            Err(WsCkptError::FrameTooLarge { size: actual, max }) => {
                assert_eq!(size, MAX_FRAME_SIZE + 1);
                assert_eq!(actual, u64::from(size));
                assert_eq!(max, MAX_FRAME_SIZE);
            }
            other => panic!("unexpected encoding result: {other:?}"),
        }
    }
}

#[test]
fn frames_read_back() {
    for len in [0usize, 1, 255, 256, 65_535, 65_536, 70_000] {
        let frame = encode_frame(&vec![7u8; len]).unwrap();
        let prefix: [u8; 4] = frame[..4].try_into().unwrap();
        assert_eq!(frame_length(prefix).unwrap() as usize, len);
        assert_eq!(frame.len(), len + 4);
    }
}

#[test]
fn lengths_are_accepted_up_to_the_limit() {
    assert_eq!(accept_request_length(MAX_FRAME_SIZE.to_le_bytes()).ok(), Some(MAX_FRAME_SIZE));
    assert_eq!(accept_response_length([5, 0, 0, 0]), Ok(5));
    let over = (MAX_FRAME_SIZE + 1).to_le_bytes();
    match accept_request_length(over) {
        Err(Response::Error { code, message }) => {
            assert_eq!(code, ErrorCode::InternalError);
            assert_eq!(message, "Frame too large: 16777217 bytes (max 16777216)");
        }
        _ => panic!("expected an error"),
    }
    assert_eq!(
        accept_response_length(over),
        Err("Response frame too large: 16777217 bytes (max 16777216)".to_string())
    );
}

#[test]
fn oversized_non_list_responses_return_legacy_compatible_errors() {
    let error = encode_frame(&vec![0u8; MAX_FRAME_SIZE as usize + 1]).unwrap_err();
    for response in [
        Response::DiffOk {
            changes: vec![DiffEntry {
                path: "file".into(),
                change_type: ChangeType::Modified,
                detail: Some("x".repeat(MAX_FRAME_SIZE as usize)),
            }],
        },
        Response::StatusOk {
            report: StatusReport {
                uptime_secs: 0,
                workspaces: vec![WorkspaceInfo {
                    ws_id: "ws-test".into(),
                    path: "x".repeat(MAX_FRAME_SIZE as usize),
                    snapshot_count: 0,
                }],
                fs_total_bytes: 0,
                fs_used_bytes: 0,
            },
        },
        Response::Error {
            code: ErrorCode::InternalError,
            message: "x".repeat(MAX_FRAME_SIZE as usize),
        },
    ] {
        match unsendable_response(&response, &error) {
            Response::Error { code, message } => {
                assert_eq!(code, ErrorCode::InternalError);
                assert!(message.len() < 1024);
                assert!(message.contains("frame too large"));
                assert!(message.contains(&MAX_FRAME_SIZE.to_string()));
                assert!(message.contains("may already have completed"));
            }
            _ => panic!("expected structured error"),
        }
    }
    match unsendable_response(&Response::ListOk { snapshots: vec![] }, &error) {
        Response::Error { message, .. } => assert!(message.contains("paginated listing")),
        _ => panic!("expected structured error"),
    }
}

#[test]
fn ops_name_mapping() {
    let ckpt = Request::Checkpoint {
        workspace: "w".into(),
        id: "id".into(),
        message: None,
        metadata: None,
        pin: false,
    };
    assert_eq!(ops_name_from_request(&ckpt), Some("ckpt"));
    let roll = Request::Rollback { workspace: "w".into(), to: None, num_ancestors: None };
    assert_eq!(ops_name_from_request(&roll), Some("roll"));
    let diff = Request::Diff { workspace: "w".into(), from: "a".into(), to: None };
    assert_eq!(ops_name_from_request(&diff), Some("diff"));
    let list = Request::List { workspace: Some("w".into()), format: None };
    assert_eq!(ops_name_from_request(&list), Some("list"));
    for cursor in [None, Some("continuation".to_string())] {
        let page = Request::ListPage { workspace: Some("w".into()), limit: 1, cursor };
        assert_eq!(ops_name_from_request(&page), Some("list_page"));
    }
    assert_eq!(ops_name_from_request(&Request::Config), Some("config"));
    assert_eq!(ops_name_from_request(&Request::ReloadConfig), Some("config"));
    assert_eq!(ops_name_from_request(&Request::ConfigOverview), Some("config"));
    let init = Request::Init { workspace: "w".into() };
    assert_eq!(ops_name_from_request(&init), None);
    assert_eq!(ops_name_from_request(&Request::HealthAdvisory), None);
    let guarded = Request::GuardedCheckpointV2 {
        ws_id: "ws-abcdef".into(),
        expected_generation: WorkspaceGenerationTokenV2::from_bytes([1; 32]),
        checkpoint_id: "checkpoint-1".into(),
        operation_digest: [2; 32],
        message: None,
        metadata: None,
        pin: false,
    };
    assert_eq!(ops_name_from_request(&guarded), Some("ckpt"));
    let identity = Request::WorkspaceIdentityV2 { registration_path: "/workspace".into() };
    assert_eq!(ops_name_from_request(&identity), None);
    let evidence = Request::CheckpointEvidenceV2 {
        ws_id: "ws-abcdef".into(),
        expected_generation: WorkspaceGenerationTokenV2::from_bytes([1; 32]),
        checkpoint_id: "checkpoint-1".into(),
        operation_digest: [2; 32],
    };
    assert_eq!(ops_name_from_request(&evidence), None);
}

fn record(ops_name: &str, agent: &str, response: &Response) -> OpsRecord {
    build_record(ops_name, agent, response, "1719100800000-1234".to_string(), "9.9.9")
}

#[test]
fn record_serialization() {
    for (ops_name, response, ckpt_time, list_time) in [
        ("ckpt", Response::CheckpointOk { snapshot_id: "id".into() }, 1, 0),
        ("list", Response::ListOk { snapshots: vec![] }, 0, 1),
    ] {
        assert_eq!(
            record(ops_name, "user", &response),
            OpsRecord {
                component_name: "ws-ckpt",
                component_version: "9.9.9".to_string(),
                component_agent_name: "user".to_string(),
                ops_id: "1719100800000-1234".to_string(),
                ops_name: ops_name.to_string(),
                ckpt_time,
                roll_time: 0,
                diff_time: 0,
                list_time,
                ops_time: 1,
                list_page_last: None,
                err_reason: "none".to_string(),
                supply: "none",
            }
        );
    }
}

#[test]
fn list_page_records_mark_terminal_and_nonterminal_replies() {
    for (next_cursor, is_last) in [(None, true), (Some("continuation".to_string()), false)] {
        let response = Response::ListPageOk { snapshots: vec![], next_cursor };
        let r = record("list_page", "user", &response);
        assert_eq!(r.list_page_last, Some(is_last));
        assert_eq!(r.ops_name, "list_page");
        assert_eq!((r.list_time, r.ops_time), (1, 1));
        assert_eq!((r.ckpt_time, r.roll_time, r.diff_time), (0, 0, 0));
        assert_eq!(r.err_reason, "none");
    }
}

#[test]
fn summary_pages_keep_page_counters_and_terminal_flags() {
    for next_cursor in [None, Some("next".to_string())] {
        let response = Response::ListPageSummaryOk {
            snapshot: SnapshotSummary {
                id: "snapshot".into(),
                workspace: "/ws".into(),
                meta: SnapshotSummaryMeta {
                    pinned: true,
                    created_at: Timestamp::new(1_719_100_800, 0).unwrap(),
                    missing: true,
                },
            },
            next_cursor: next_cursor.clone(),
        };
        let r = record("list_page", "user", &response);
        assert_eq!(r.list_page_last, Some(next_cursor.is_none()));
        assert_eq!(r.list_time, 1);
        assert_eq!(r.ops_time, 1);
        assert_eq!(r.err_reason, "none");
        assert!(record("list", "user", &response).list_page_last.is_none());
    }
}

#[test]
fn list_page_errors_keep_the_operation_without_a_last_flag() {
    let response = Response::Error {
        code: ErrorCode::WorkspaceNotFound,
        message: "workspace not found".into(),
    };
    for cursor in [None, Some("continuation".to_string())] {
        let request = Request::ListPage { workspace: Some("w".into()), limit: 1, cursor };
        let ops_name = ops_name_from_request(&request).expect("page operation");
        let r = record(ops_name, "hermes", &response);
        assert_eq!(r.list_page_last, None);
        assert_eq!(r.ops_name, "list_page");
        assert_eq!((r.list_time, r.ops_time), (1, 1));
        assert_eq!(r.err_reason, "workspace not found");
    }
}

#[test]
fn last_flag_requires_both_page_operation_and_page_reply() {
    for (ops_name, response) in [
        ("list", Response::ListPageOk { snapshots: vec![], next_cursor: None }),
        ("list_page", Response::ListOk { snapshots: vec![] }),
    ] {
        assert_eq!(record(ops_name, "user", &response).list_page_last, None);
    }
}

#[test]
fn record_with_error() {
    let response = Response::Error {
        code: ErrorCode::SnapshotNotFound,
        message: "snapshot not found".into(),
    };
    let r = record("roll", "hermes", &response);
    assert_eq!(r.component_agent_name, "hermes");
    assert_eq!(r.ops_name, "roll");
    assert_eq!(r.roll_time, 1);
    assert_eq!(r.ckpt_time, 0);
    assert_eq!(r.err_reason, "snapshot not found");
}

#[test]
fn ops_ids_join_time_process_and_sequence() {
    assert_eq!(ops_id(1719100800000, 1234, 7), "1719100800000-1234-7");
    assert_eq!(ops_id(-5, 1, 0), "-5-1-0");
}

#[test]
fn agents_are_told_by_their_environment() {
    assert_eq!(detect_agent_name(None), "user");
    assert_eq!(detect_agent_name(Some(b"A=1\0PATH=/bin\0".to_vec())), "user");
    let with = |v: &str| Some(format!("A=1\0WS_CKPT_AGENT_NAME={v}\0B=2").into_bytes());
    assert_eq!(detect_agent_name(with("hermes")), "hermes");
    assert_eq!(detect_agent_name(with("openclaw")), "openclaw");
    assert_eq!(detect_agent_name(with("user")), "user");
    assert_eq!(detect_agent_name(with("someone")), "unknown");
}

#[test]
fn operations_are_recorded_where_the_log_is_there() {
    assert!(writes_record(false, true));
    assert!(!writes_record(true, true));
    assert!(!writes_record(false, false));
    assert!(!writes_record(true, false));
}
