use ws_ckpt::config::DaemonConfig;
use ws_ckpt::guarded::{
    after_creation, after_generation, after_inspection, after_probe, after_quiescence,
    created_evidence_is_marked_missing, evidence_is_visible, identity_answer,
    index_with_evidence_slot, start_checkpoint, GuardedRequest, NextMove,
    GUARDED_CHECKPOINT_EVIDENCE_LIMIT_V2,
};
use ws_ckpt::ids::LIVE_CHILD;
use ws_ckpt::index::SnapshotIndex;
use ws_ckpt::message::{ErrorCode, GuardedCheckpointRejectionCodeV2, Response};
use ws_ckpt::snapshot::{
    Duplicate, GuardedCheckpointEvidenceV2, GuardedCheckpointOutcomeV2, SnapshotMeta, Timestamp,
    WorkspaceGenerationTokenV2,
};
use ws_ckpt::state::DaemonState;

type Code = GuardedCheckpointRejectionCodeV2;

fn generation(b: u8) -> WorkspaceGenerationTokenV2 {
    WorkspaceGenerationTokenV2::from_bytes([b; 32])
}

fn request(id: &str) -> GuardedRequest {
    GuardedRequest {
        ws_id: "ws-abcdef".to_string(),
        expected_generation: generation(1),
        checkpoint_id: id.to_string(),
        operation_digest: [2; 32],
        message: Some("before".to_string()),
        metadata: Some("{ \"a\" : 1 }".to_string()),
        pin: true,
    }
}

fn registered(index: SnapshotIndex) -> DaemonState {
    let mut state = DaemonState::new(
        DaemonConfig::default(),
        "/mnt".to_string(),
        "/mnt/snapshots".to_string(),
        "/state".to_string(),
    );
    state.register_workspace("ws-abcdef".to_string(), "/ws".to_string(), index);
    state
}

fn empty() -> SnapshotIndex {
    SnapshotIndex::new("/ws".to_string())
}

fn meta(missing: bool) -> SnapshotMeta {
    SnapshotMeta {
        message: None,
        metadata: None,
        pinned: false,
        created_at: Timestamp::new(1_700_000_000, 0).unwrap(),
        missing,
        parent_id: None,
        child_ids: vec![],
    }
}

fn evidence(id: &str, created: bool) -> GuardedCheckpointEvidenceV2 {
    GuardedCheckpointEvidenceV2 {
        ws_id: "ws-abcdef".to_string(),
        registered_path: "/ws".to_string(),
        generation: generation(1),
        checkpoint_id: id.to_string(),
        operation_digest: [2; 32],
        caller_uid: 1000,
        outcome: if created {
            GuardedCheckpointOutcomeV2::Created { snapshot_id: id.to_string() }
        } else {
            GuardedCheckpointOutcomeV2::Skipped { reason: "empty".to_string() }
        },
    }
}

fn rejection<T>(r: Result<T, Response>) -> (Code, String) {
    match r {
        Err(Response::GuardedCheckpointV2Rejected { code, message }) => (code, message),
        _ => panic!("expected a rejection"),
    }
}

fn reply_code(r: Response) -> Code {
    rejection::<()>(Err(r)).0
}

/// Runs a checkpoint of a workspace that has contents, up to the answer.
fn checkpoint(state: &mut DaemonState, req: &GuardedRequest, uid: u32) -> Response {
    let a = match start_checkpoint(state, Some(uid), req) {
        Ok(a) => a,
        Err(e) => return e,
    };
    let index = state.get_by_wsid(&req.ws_id).unwrap().index.duplicate();
    let next = match after_generation(&index, req, uid, Ok(generation(1))) {
        Ok(n) => n,
        Err(e) => return e,
    };
    let next = match after_inspection(next, req, &a, Ok(false)) {
        NextMove::CreateSnapshot { index } => index,
        _ => panic!("expected a snapshot"),
    };
    let at = Timestamp::new(1_700_000_100, 0).unwrap();
    match after_creation(next, req, &a, Ok(at)) {
        Ok((index, evidence)) => state.finish_checkpoint(&req.ws_id, index, evidence, Ok(())),
        Err(e) => e,
    }
}

#[test]
fn requests_are_checked_in_order() {
    let state = registered(empty());
    let (code, m) = rejection(start_checkpoint(&state, None, &request("c1")));
    assert_eq!(code, Code::PeerCredentialsUnavailable);
    assert_eq!(m, "guarded checkpoint requires kernel peer credentials");
    let bad_ws = GuardedRequest { ws_id: "nope".to_string(), ..request("c1") };
    assert_eq!(rejection(start_checkpoint(&state, Some(1), &bad_ws)).0, Code::InvalidWorkspaceId);
    assert_eq!(
        rejection(start_checkpoint(&state, Some(1), &request("a/b"))).0,
        Code::InvalidCheckpointId
    );
    let bad_json = GuardedRequest { metadata: Some("{".to_string()), ..request("c1") };
    let (code, m) = rejection(start_checkpoint(&state, Some(1), &bad_json));
    assert_eq!(code, Code::InvalidMetadata);
    assert!(m.starts_with("metadata is not valid JSON: EOF while parsing"), "{m}");
    let unknown = GuardedRequest { ws_id: "ws-000000".to_string(), ..request("c1") };
    let (code, m) = rejection(start_checkpoint(&state, Some(1), &unknown));
    assert_eq!((code, m.as_str()), (Code::WorkspaceNotFound, "workspace is not registered: ws-000000"));
    let a = start_checkpoint(&state, Some(7), &request("c1")).ok().unwrap();
    assert_eq!(a.uid, 7);
    assert_eq!(a.registered_path, "/ws");
    assert_eq!(a.metadata.as_deref(), Some("{\"a\":1}"));
}

#[test]
fn a_checkpoint_is_recorded_below_the_head() {
    let mut index = empty();
    let first = SnapshotMeta { child_ids: vec![LIVE_CHILD.to_string()], ..meta(false) };
    index.snapshots.insert("first".to_string(), first);
    index.head = Some("first".to_string());
    let mut state = registered(index);
    match checkpoint(&mut state, &request("c1"), 1000) {
        Response::GuardedCheckpointV2Ok { evidence: e } => {
            assert!(e == GuardedCheckpointEvidenceV2 {
                registered_path: "/ws".to_string(),
                ..evidence("c1", true)
            });
        }
        _ => panic!("expected success"),
    }
    let w = state.get_by_wsid("ws-abcdef").unwrap();
    assert_eq!(w.index.head.as_deref(), Some("c1"));
    let record = w.index.snapshots.get("c1").unwrap();
    assert_eq!(record.parent_id.as_deref(), Some("first"));
    assert_eq!(record.child_ids, [LIVE_CHILD]);
    assert_eq!(record.message.as_deref(), Some("before"));
    assert_eq!(record.metadata.as_deref(), Some("{\"a\":1}"));
    assert!(record.pinned);
    assert_eq!(w.index.snapshots.get("first").unwrap().child_ids, ["c1"]);
    assert!(w.index.governed_evidence.contains_key("c1"));
}

#[test]
fn a_repeated_request_is_answered_from_evidence() {
    let mut state = registered(empty());
    checkpoint(&mut state, &request("c1"), 1000);
    let before = state.get_by_wsid("ws-abcdef").unwrap().index.snapshots.len();
    match checkpoint(&mut state, &request("c1"), 1000) {
        Response::GuardedCheckpointV2Ok { evidence: e } => assert!(e == evidence("c1", true)),
        _ => panic!("expected the evidence"),
    }
    assert_eq!(state.get_by_wsid("ws-abcdef").unwrap().index.snapshots.len(), before);
    let other = GuardedRequest { operation_digest: [3; 32], ..request("c1") };
    let (code, m) = rejection::<()>(Err(checkpoint(&mut state, &other, 1000)));
    assert_eq!(code, Code::OperationConflict);
    assert_eq!(m, "checkpoint id is already bound to a different guarded operation");
    assert_eq!(reply_code(checkpoint(&mut state, &request("c1"), 1001)), Code::OperationConflict);
}

#[test]
fn an_unguarded_snapshot_of_the_same_name_conflicts() {
    let mut index = empty();
    index.snapshots.insert("c1".to_string(), meta(false));
    let mut state = registered(index);
    let (_, m) = rejection::<()>(Err(checkpoint(&mut state, &request("c1"), 1000)));
    assert_eq!(m, "checkpoint id already exists without matching guarded evidence");
}

#[test]
fn generations_must_match() {
    let r = after_generation(&empty(), &request("c1"), 1000, Ok(generation(9)));
    let (code, m) = rejection(r);
    assert_eq!(code, Code::GenerationMismatch);
    assert_eq!(m, "workspace generation no longer matches the guarded request");
    let r = after_generation(&empty(), &request("c1"), 1000, Err("boom".to_string()));
    let (code, m) = rejection(r);
    assert_eq!(code, Code::DaemonNotReady);
    assert_eq!(m, "failed to read live workspace generation: boom");
}

#[test]
fn probes_and_writers_stop_a_checkpoint() {
    assert!(after_probe(true).is_ok());
    assert_eq!(rejection(after_probe(false)).0, Code::InvalidRegistrationPath);
    assert!(after_quiescence(true).is_ok());
    assert_eq!(rejection(after_quiescence(false)).0, Code::WriteLockConflict);
}

#[test]
fn evidence_makes_room_for_itself() {
    let mut index = empty();
    for i in 0..GUARDED_CHECKPOINT_EVIDENCE_LIMIT_V2 {
        let id = format!("c{i:03}");
        index.snapshots.insert(id.clone(), meta(false));
        index.governed_evidence.insert(id.clone(), evidence(&id, true));
    }
    assert!(index_with_evidence_slot(&index).is_none());
    let (code, m) = rejection(after_generation(&index, &request("new"), 1000, Ok(generation(1))));
    assert_eq!(code, Code::EvidenceCapacityReached);
    assert_eq!(m, "guarded evidence capacity is occupied by visible snapshots");
    index.governed_evidence.insert("c007".to_string(), evidence("c007", false));
    let room = index_with_evidence_slot(&index).unwrap();
    assert_eq!(room.governed_evidence.len(), GUARDED_CHECKPOINT_EVIDENCE_LIMIT_V2 - 1);
    assert!(!room.governed_evidence.contains_key("c007"));
    assert!(room.snapshots.contains_key("c007"));
}

#[test]
fn visibility_follows_the_snapshot() {
    let mut index = empty();
    index.snapshots.insert("here".to_string(), meta(false));
    index.snapshots.insert("lost".to_string(), meta(true));
    assert!(evidence_is_visible(&index, &evidence("here", true)));
    assert!(!evidence_is_visible(&index, &evidence("lost", true)));
    assert!(!evidence_is_visible(&index, &evidence("gone", true)));
    assert!(evidence_is_visible(&index, &evidence("gone", false)));
    assert!(created_evidence_is_marked_missing(&index, &evidence("lost", true)));
    assert!(!created_evidence_is_marked_missing(&index, &evidence("here", true)));
}

#[test]
fn empty_workspaces_are_skipped() {
    let mut state = registered(empty());
    let req = request("c1");
    let a = start_checkpoint(&state, Some(1000), &req).ok().unwrap();
    match after_inspection(empty(), &req, &a, Ok(true)) {
        NextMove::SaveSkipped { index, evidence } => {
            assert!(index.governed_evidence.contains_key("c1"));
            let kept = index.duplicate();
            let r = state.finish_checkpoint("ws-abcdef", kept, evidence.duplicate(), Err("io".to_string()));
            let (code, m) = rejection::<()>(Err(r));
            assert_eq!(code, Code::DaemonNotReady);
            assert_eq!(m, "failed to durably save skipped checkpoint evidence: io");
            assert!(state.get_by_wsid("ws-abcdef").unwrap().index.governed_evidence.is_empty());
            state.finish_checkpoint("ws-abcdef", index, evidence, Ok(()));
        }
        _ => panic!("expected a skipped checkpoint"),
    }
    match state.checkpoint_evidence(Some(1000), &req) {
        Response::CheckpointEvidenceV2Ok { evidence: Some(e) } => {
            assert!(e.outcome == GuardedCheckpointOutcomeV2::Skipped {
                reason: "Empty workspace, no snapshot created.".to_string()
            });
        }
        _ => panic!("expected evidence"),
    }
    assert_eq!(
        rejection::<()>(Err(match after_inspection(empty(), &req, &a, Err("x".to_string())) {
            NextMove::Reply(r) => r,
            _ => panic!("expected a reply"),
        }))
        .1,
        "failed to inspect workspace contents: x"
    );
}

#[test]
fn failures_after_an_effect_are_errors_not_rejections() {
    let mut state = registered(empty());
    let req = request("c1");
    let a = start_checkpoint(&state, Some(1000), &req).ok().unwrap();
    match after_creation(empty(), &req, &a, Err("no space".to_string())) {
        Err(Response::Error { code, message }) => {
            assert_eq!(code, ErrorCode::InternalError);
            assert_eq!(
                message,
                "guarded checkpoint backend operation failed; reconcile before retrying: no space"
            );
        }
        _ => panic!("expected an error"),
    }
    match state.finish_checkpoint("ws-abcdef", empty(), evidence("c1", true), Err("io".to_string())) {
        Response::Error { message, .. } => assert!(message.contains("durable evidence save failed")),
        _ => panic!("expected an error"),
    }
}

#[test]
fn evidence_is_shown_to_its_caller_alone() {
    let mut state = registered(empty());
    checkpoint(&mut state, &request("c1"), 1000);
    assert!(matches!(
        state.checkpoint_evidence(Some(1000), &request("c2")),
        Response::CheckpointEvidenceV2Ok { evidence: None }
    ));
    assert!(matches!(
        state.checkpoint_evidence(Some(1000), &request("c1")),
        Response::CheckpointEvidenceV2Ok { evidence: Some(_) }
    ));
    assert_eq!(
        reply_code(state.checkpoint_evidence(None, &request("c1"))),
        Code::PeerCredentialsUnavailable
    );
    assert_eq!(
        reply_code(state.checkpoint_evidence(Some(1001), &request("c1"))),
        Code::CallerMismatch
    );
}

#[test]
fn identities_are_those_of_exact_registrations() {
    let state = registered(empty());
    assert_eq!(state.identity_candidate("/ws").ok().unwrap(), "ws-abcdef");
    assert_eq!(
        rejection(state.identity_candidate("relative")).0,
        Code::InvalidRegistrationPath
    );
    assert_eq!(rejection(state.identity_candidate("/other")).0, Code::WorkspaceNotFound);
    assert!(state.identity_confirm("/ws", "ws-abcdef", true).is_ok());
    assert_eq!(
        rejection(state.identity_confirm("/ws", "ws-abcdef", false)).0,
        Code::WorkspaceNotFound
    );
    assert_eq!(
        rejection(state.identity_confirm("/ws", "ws-000000", true)).0,
        Code::WorkspaceNotFound
    );
    match identity_answer("ws-abcdef".to_string(), "/ws".to_string(), Ok(generation(4))) {
        Response::WorkspaceIdentityV2Ok { protocol_version, ws_id, registered_path, generation: g } => {
            assert_eq!(protocol_version, 2);
            assert_eq!((ws_id.as_str(), registered_path.as_str()), ("ws-abcdef", "/ws"));
            assert!(g == generation(4));
        }
        _ => panic!("expected an identity"),
    }
}

#[test]
fn generation_tokens_do_not_show_their_bytes() {
    assert_eq!(generation(9).debug_text(), "WorkspaceGenerationTokenV2(<opaque>)");
    assert!(generation(9).same(&generation(9)) && !generation(9).same(&generation(8)));
}
