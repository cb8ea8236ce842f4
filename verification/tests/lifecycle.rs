use ws_ckpt::config::{DaemonConfig, WsCkptError};
use ws_ckpt::ids::LIVE_CHILD;
use ws_ckpt::index::{SnapshotIndex, StringSet};
use ws_ckpt::lifecycle::{
    after_bucket_probe, after_check, after_early_look, after_mount_check,
    after_resolution, after_tool_check, begin_init, initial_index, is_quiescent, recover_index,
    restored_index, CheckedMove, EarlyLook, EarlyMove, Found, Resolution,
};
use ws_ckpt::message::{error_resp, ErrorCode, Response};
use ws_ckpt::paths::{
    file_name, join_path, normalize_path, path_components, path_starts_with,
    validate_registration_path,
};
use ws_ckpt::policy::LoadPolicyOutcome;
use ws_ckpt::snapshot::{
    GuardedCheckpointEvidenceV2, GuardedCheckpointOutcomeV2, GuardedRollbackEvidenceV2,
    GuardedRollbackOutcomeV2, SnapshotMeta, Timestamp, WorkspaceGenerationTokenV2,
};
use ws_ckpt::state::{DaemonState, PathKind, RegistrationFacts};

fn test_state() -> DaemonState {
    DaemonState::new(
        DaemonConfig { mount_path: "/mnt/pool".to_string(), ..DaemonConfig::default() },
        "/mnt/pool".to_string(),
        "/mnt/pool/snapshots".to_string(),
        "/tmp/test-state".to_string(),
    )
}

fn index(path: &str) -> SnapshotIndex {
    SnapshotIndex::new(path.to_string())
}

fn meta(parent: Option<&str>, children: Vec<&str>) -> SnapshotMeta {
    SnapshotMeta {
        message: None,
        metadata: None,
        pinned: false,
        created_at: Timestamp::new(1_700_000_000, 5).unwrap(),
        missing: false,
        parent_id: parent.map(|s| s.to_string()),
        child_ids: children.into_iter().map(|s| s.to_string()).collect(),
    }
}

fn evidence(id: &str) -> GuardedCheckpointEvidenceV2 {
    GuardedCheckpointEvidenceV2 {
        ws_id: "ws-abcdef".to_string(),
        registered_path: "/ws".to_string(),
        generation: WorkspaceGenerationTokenV2::from_bytes([1; 32]),
        checkpoint_id: id.to_string(),
        operation_digest: [2; 32],
        caller_uid: 1000,
        outcome: GuardedCheckpointOutcomeV2::Skipped { reason: "empty".to_string() },
    }
}

fn expect_error(r: Response) -> (ErrorCode, String) {
    match r {
        Response::Error { code, message } => (code, message),
        _ => panic!("expected an error"),
    }
}

fn live() -> RegistrationFacts {
    RegistrationFacts {
        registration_target: Some("/mnt/pool/ws-1".to_string()),
        live_target: Some("/mnt/pool/ws-1".to_string()),
        kind: PathKind::Symlink,
    }
}

#[test]
fn error_resp_constructs_correct_response() {
    let (code, message) = expect_error(error_resp(ErrorCode::WorkspaceNotFound, "not found"));
    assert_eq!(code, ErrorCode::WorkspaceNotFound);
    assert_eq!(message, "not found");
}

#[test]
fn confirmation_required_delete_pinned_snapshot_response() {
    let mut state = test_state();
    let mut idx = index("/ws");
    let mut m = meta(None, vec![]);
    m.pinned = true;
    idx.snapshots.insert("snap-1".to_string(), m);
    state.register_workspace("ws-1".to_string(), "/ws".to_string(), idx);
    let (code, message) =
        expect_error(state.plan_delete("ws-1", None, &live(), "snap-1", false).unwrap_err());
    assert_eq!(code, ErrorCode::ConfirmationRequired);
    assert!(message.contains("pinned"));
    assert!(message.contains("--force"));
    assert!(state.plan_delete("ws-1", None, &live(), "snap-1", true).is_ok());
}

#[test]
fn init_empty_workspace_returns_invalid_path() {
    for blank in ["", "   ", "\t"] {
        let (code, message) = expect_error(begin_init(blank).unwrap_err());
        assert_eq!(code, ErrorCode::InvalidPath);
        assert!(message.contains("empty"), "{message}");
    }
    assert_eq!(begin_init("/a/b//").ok().unwrap(), "/a/b");
}

#[test]
fn init_nonexistent_path_returns_invalid_path() {
    let (code, message) =
        expect_error(after_resolution("/nonexistent", Resolution::NotFound).unwrap_err());
    assert_eq!(code, ErrorCode::InvalidPath);
    assert_eq!(
        message,
        "path does not exist in the daemon's mount namespace: /nonexistent. In a sidecar deployment the workspace must live on a volume shared with the daemon container."
    );
}

#[test]
fn init_symlink_loop_reports_resolution_error_not_shared_volume_hint() {
    let failed = Resolution::Failed("Too many levels of symbolic links".to_string());
    let (code, message) = expect_error(after_resolution("/loop", failed).unwrap_err());
    assert_eq!(code, ErrorCode::InvalidPath);
    assert!(message.contains("cannot resolve"), "{message}");
    assert!(!message.contains("shared with the daemon container"), "{message}");
}

#[test]
fn init_root_path_returns_invalid_path() {
    for variant in ["/", "///", "/.", "/./"] {
        let r = after_resolution(variant, Resolution::Resolved(variant.to_string()));
        let (code, message) = expect_error(r.unwrap_err());
        assert_eq!(code, ErrorCode::InvalidPath, "variant {:?}", variant);
        assert!(message.contains("root"), "variant {:?}: {}", variant, message);
    }
}

#[test]
fn init_rejects_non_utf8_canonicalized_path() {
    let r = after_resolution("/link", Resolution::NotText("/x/non-utf8-\u{fffd}dir".to_string()));
    let (code, message) = expect_error(r.unwrap_err());
    assert_eq!(code, ErrorCode::InvalidPath);
    assert!(message.contains("not valid UTF-8"), "message: {}", message);
}

#[test]
fn init_already_initialized_returns_ok() {
    let mut state = test_state();
    state.register_workspace("ws-exist".to_string(), "/home/u/myws".to_string(), index("/home/u/myws"));
    let look = EarlyLook::Link { target: "/mnt/pool/ws-exist".to_string(), target_exists: true };
    match after_early_look(&state, look) {
        EarlyMove::Reply(Response::InitOk { ws_id }) => assert_eq!(ws_id, "ws-exist"),
        _ => panic!("expected InitOk for already-initialized workspace"),
    }
}

#[test]
fn early_looks_decide_on_links_into_the_pool() {
    let state = test_state();
    assert!(matches!(after_early_look(&state, EarlyLook::NoLink), EarlyMove::Continue));
    let elsewhere = EarlyLook::Link { target: "/mnt/pool2/x".to_string(), target_exists: true };
    assert!(matches!(after_early_look(&state, elsewhere), EarlyMove::Continue));
    let broken = EarlyLook::Link { target: "/mnt/pool/ws-x".to_string(), target_exists: false };
    assert!(matches!(after_early_look(&state, broken), EarlyMove::RemoveLink));
    let orphan = EarlyLook::Link { target: "/mnt/pool/ws-x/".to_string(), target_exists: true };
    match after_early_look(&state, orphan) {
        EarlyMove::Adopt { ws_id } => assert_eq!(ws_id, "ws-x"),
        _ => panic!("expected adoption"),
    }
}

#[test]
fn init_registered_but_regular_dir_returns_error_with_hint() {
    let mut state = test_state();
    state.register_workspace("ws-gone".to_string(), "/home/u/p".to_string(), index("/home/u/p"));
    match after_check(&state, "/home/u/p", Found::Directory, None) {
        CheckedMove::Reply(r) => {
            let (code, message) = expect_error(r);
            assert_eq!(code, ErrorCode::InternalError);
            assert!(message.contains("regular directory"), "hint missing: {message}");
        }
        _ => panic!("expected error for registered workspace whose symlink was replaced"),
    }
    match after_check(&state, "/home/u/p", Found::Directory, Some("/elsewhere")) {
        CheckedMove::Reply(r) => assert!(!expect_error(r).1.contains("regular directory")),
        _ => panic!("expected error"),
    }
    match after_check(&state, "/home/u/p", Found::Directory, Some("/mnt/pool/ws-gone")) {
        CheckedMove::Reply(Response::InitOk { ws_id }) => assert_eq!(ws_id, "ws-gone"),
        _ => panic!("expected InitOk"),
    }
}

#[test]
fn init_path_inside_mount_path_returns_invalid_path() {
    let state = test_state();
    match after_check(&state, "/mnt/pool/subdir/deeper", Found::Directory, None) {
        CheckedMove::Reply(r) => {
            let (code, message) = expect_error(r);
            assert_eq!(code, ErrorCode::InvalidPath);
            assert!(message.contains("inside mount_path"));
        }
        _ => panic!("expected InvalidPath error for path inside mount_path"),
    }
    match after_check(&state, "/mnt/pool/subdir", Found::Directory, None) {
        CheckedMove::ProbeBucket { ws_id } => assert_eq!(ws_id, "subdir"),
        _ => panic!("expected a probe"),
    }
    assert!(after_bucket_probe(&state, "/mnt/pool/subdir", true).is_none());
    let r = after_bucket_probe(&state, "/mnt/pool/subdir", false).unwrap();
    assert_eq!(expect_error(r).1, "path is inside mount_path (/mnt/pool): /mnt/pool/subdir");
}

#[test]
fn init_canonical_into_managed_subvol_is_idempotent() {
    let mut state = test_state();
    state.register_workspace("ws-abc123".to_string(), "/some/user/facing/path".to_string(), index("/some/user/facing/path"));
    match after_check(&state, "/mnt/pool/ws-abc123", Found::Directory, None) {
        CheckedMove::Reply(Response::InitOk { ws_id }) => assert_eq!(ws_id, "ws-abc123"),
        _ => panic!("expected idempotent InitOk"),
    }
}

#[test]
fn init_non_directory_returns_invalid_path() {
    let state = test_state();
    match after_check(&state, "/tmp/not-a-dir.txt", Found::NotDirectory, None) {
        CheckedMove::Reply(r) => {
            let (code, message) = expect_error(r);
            assert_eq!(code, ErrorCode::InvalidPath);
            assert!(message.contains("not a directory"));
        }
        _ => panic!("expected InvalidPath error for non-directory"),
    }
    match after_check(&state, "/tmp/x", Found::Unreadable, None) {
        CheckedMove::Reply(r) => assert_eq!(expect_error(r).1, "cannot stat path: /tmp/x"),
        _ => panic!("expected an error"),
    }
    assert!(matches!(
        after_check(&state, "/tmp/x", Found::Directory, None),
        CheckedMove::Proceed
    ));
}

#[test]
fn init_guards_refuse_mounts_and_missing_tools() {
    assert!(after_mount_check("/ws", false).is_none());
    let (code, message) = expect_error(after_mount_check("/ws", true).unwrap());
    assert_eq!(code, ErrorCode::InvalidPath);
    assert_eq!(
        message,
        "workspace root is an active mount point: /ws; initialize a subdirectory of the mount instead, or unmount it first and re-run"
    );
    assert!(after_tool_check(true).is_none());
    assert_eq!(
        expect_error(after_tool_check(false).unwrap()).1,
        "rsync is not installed or not in PATH"
    );
}

#[test]
fn finished_initialization_is_registered() {
    let mut state = test_state();
    let r = state.finish_init(
        "ws-1".to_string(),
        "/home/u/p".to_string(),
        index("/home/u/p"),
        Err(WsCkptError::Io("denied".to_string())),
    );
    match r {
        Response::InitOk { ws_id } => assert_eq!(ws_id, "ws-1"),
        _ => panic!("expected InitOk"),
    }
    assert!(state.get_by_wsid("ws-1").unwrap().policy_failsafe);
    state.finish_init(
        "ws-2".to_string(),
        "/home/u/q".to_string(),
        index("/home/u/q"),
        Ok(LoadPolicyOutcome::Missing),
    );
    assert!(!state.get_by_path("/home/u/q").unwrap().policy_failsafe);
}

#[test]
fn delete_snapshot_unregistered_workspace_returns_not_found() {
    let r = test_state().plan_delete("/tmp/xyz", None, &live(), "msg1-step0", false);
    assert_eq!(expect_error(r.unwrap_err()).0, ErrorCode::WorkspaceNotFound);
}

#[test]
fn delete_snapshot_healthy_registration_reaches_snapshot_resolution() {
    let mut state = test_state();
    let mut idx = index("/ws");
    idx.snapshots.insert("snap-1".to_string(), meta(None, vec![]));
    idx.snapshots.insert("snap-2".to_string(), meta(None, vec![]));
    state.register_workspace("ws-1".to_string(), "/ws".to_string(), idx);
    let (code, message) =
        expect_error(state.plan_delete("ws-1", None, &live(), "no-such", false).unwrap_err());
    assert_eq!(code, ErrorCode::SnapshotNotFound);
    assert!(message.contains("no-such"), "got: {message}");
    let (_, message) =
        expect_error(state.plan_delete("ws-1", None, &live(), "snap", false).unwrap_err());
    assert_eq!(message, "ambiguous snapshot prefix 'snap': 2 matches");
}

#[test]
fn delete_snapshot_refuses_detached_registration() {
    let mut state = test_state();
    let mut idx = index("/ws");
    idx.snapshots.insert("snap-1".to_string(), meta(None, vec![]));
    state.register_workspace("ws-del-gone".to_string(), "/ws".to_string(), idx);
    let facts = RegistrationFacts {
        registration_target: Some("/ws".to_string()),
        live_target: Some("/mnt/pool/ws-del-gone".to_string()),
        kind: PathKind::NotSymlink,
    };
    for address in ["/ws", "ws-del-gone"] {
        let r = state.plan_delete(address, None, &facts, "snap-1", false);
        let (code, message) = expect_error(r.unwrap_err());
        assert_eq!(code, ErrorCode::InternalError);
        assert!(message.contains("recover"), "hint missing: {message}");
        assert!(message.contains("regular directory"), "note missing: {message}");
    }
}

#[test]
fn deletion_takes_the_snapshot_out_of_everything() {
    let mut state = test_state();
    let mut idx = index("/ws");
    idx.snapshots.insert("a".to_string(), meta(None, vec!["b"]));
    idx.snapshots.insert("b".to_string(), meta(Some("a"), vec![LIVE_CHILD]));
    idx.head = Some("b".to_string());
    idx.governed_evidence.insert("b".to_string(), evidence("b"));
    state.register_workspace("ws-1".to_string(), "/ws".to_string(), idx);
    let plan = state.plan_delete("ws-1", None, &live(), "b", false).ok().unwrap();
    assert_eq!((plan.ws_id.as_str(), plan.snapshot_id.as_str()), ("ws-1", "b"));
    assert!(plan.delete_subvolume);
    state.forget_snapshot("ws-1", "b");
    let w = state.get_by_wsid("ws-1").unwrap();
    assert!(!w.index.snapshots.contains_key("b"));
    assert!(!w.index.governed_evidence.contains_key("b"));
    assert_eq!(w.index.head.as_deref(), Some("a"));
    assert_eq!(w.index.snapshots.get("a").unwrap().child_ids, [LIVE_CHILD]);
}

#[test]
fn recover_unregistered_workspace_returns_not_found() {
    let r = test_state().plan_recover("/nonexistent/path/12345", None);
    assert_eq!(expect_error(r.unwrap_err()).0, ErrorCode::WorkspaceNotFound);
}

#[test]
fn filesystem_rebuild_preserves_guarded_evidence() {
    let mut loaded = index("/ws");
    loaded.governed_evidence.insert("skipped-1".to_string(), evidence("skipped-1"));
    let mut rebuilt = index("/ws");
    rebuilt.snapshots.insert("orphan-snapshot".to_string(), meta(None, vec![]));
    let (restored, save) = recover_index(loaded, Some(rebuilt));
    assert!(save);
    assert!(restored.snapshots.contains_key("orphan-snapshot"));
    assert!(restored.governed_evidence.contains_key("skipped-1"));
}

#[test]
fn rollback_receipts_survive_a_rebuild() {
    let receipt = |id: &str| GuardedRollbackEvidenceV2 {
        ws_id: "ws-abcdef".to_string(),
        registered_path: "/ws".to_string(),
        expected_generation: WorkspaceGenerationTokenV2::from_bytes([1; 32]),
        target_snapshot_id: "target".to_string(),
        expected_diff_digest: [2; 32],
        operation_id: id.to_string(),
        operation_digest: [3; 32],
        caller_uid: 1000,
        outcome: GuardedRollbackOutcomeV2::Started,
    };
    let mut loaded = index("/ws");
    loaded.guarded_rollbacks.insert("op-1".to_string(), receipt("op-1"));
    let mut rebuilt = index("/ws");
    rebuilt.snapshots.insert("found".to_string(), meta(None, vec![]));
    let (restored, save) = recover_index(loaded, Some(rebuilt));
    assert!(save && restored.snapshots.contains_key("found"));
    assert!(restored.guarded_rollbacks.get("op-1") == Some(&receipt("op-1")));
    assert_eq!(restored.guarded_rollbacks.len(), 1);
}

#[test]
fn indexes_are_restored_from_what_there_is() {
    let mut own = index("/ws");
    own.snapshots.insert("own".to_string(), meta(None, vec![]));
    let mut found = index("/ws");
    found.snapshots.insert("found".to_string(), meta(None, vec![]));
    let (kept, save) = recover_index(own, Some(found));
    assert!(!save && kept.snapshots.contains_key("own"));
    let mut found = index("/ws");
    found.snapshots.insert("found".to_string(), meta(None, vec![]));
    let (taken, save) = recover_index(restored_index(None, "/ws"), Some(found));
    assert!(save && taken.snapshots.contains_key("found"));
    assert_eq!(restored_index(None, "/p").workspace_path, "/p");
    assert!(initial_index(Some(index("/old")), "/new").workspace_path == "/new");
    let mut found = index("/old");
    found.snapshots.insert("found".to_string(), meta(None, vec![]));
    assert!(initial_index(Some(found), "/new").workspace_path == "/old");
}

#[test]
fn reconciling_marks_exactly_the_missing() {
    let mut state = test_state();
    let mut idx = index("/ws");
    let mut back = meta(None, vec![]);
    back.missing = true;
    idx.snapshots.insert("back".to_string(), back);
    idx.snapshots.insert("here".to_string(), meta(None, vec![]));
    idx.snapshots.insert("lost".to_string(), meta(None, vec![]));
    state.register_workspace("ws-1".to_string(), "/ws".to_string(), idx);
    let mut present = StringSet::new();
    present.insert("back".to_string(), ());
    present.insert("here".to_string(), ());
    assert!(state.reconcile_workspace("ws-1", &present));
    let w = state.get_by_wsid("ws-1").unwrap();
    let missing = |id: &str| w.index.snapshots.get(id).unwrap().missing;
    assert!(!missing("back") && !missing("here") && missing("lost"));
    assert!(!state.reconcile_workspace("ws-1", &present));
    assert!(!state.reconcile_workspace("ws-none", &present));
}

#[test]
fn quiescence_needs_a_second_look_only_after_writes() {
    assert!(is_quiescent(None, true));
    assert!(is_quiescent(Some(false), true));
    assert!(is_quiescent(Some(true), false));
    assert!(!is_quiescent(Some(true), true));
}

#[test]
fn paths_have_the_components_of_the_standard_library() {
    for p in ["", "/", "a", "a/b", "/a//b/", "./a", "a/./b", "/./a", "../x", ".", "a/..", "//", "/a/.b/...", "a/."] {
        let expected: Vec<String> = std::path::Path::new(p)
            .components()
            .map(|c| c.as_os_str().to_string_lossy().to_string())
            .collect();
        assert_eq!(path_components(p), expected, "{p:?}");
        let name = std::path::Path::new(p).file_name().map(|n| n.to_string_lossy().to_string());
        assert_eq!(file_name(p), name, "{p:?}");
        for q in ["", "/", "a", "/a", "b", "./a", "/abs/x"] {
            let std_q = std::path::Path::new(q);
            assert_eq!(path_starts_with(p, q), std::path::Path::new(p).starts_with(std_q));
            let joined = std::path::Path::new(p).join(q);
            assert_eq!(join_path(p, q), joined.to_string_lossy(), "{p:?} {q:?}");
            let same = std::path::Path::new(p) == std_q;
            assert_eq!(normalize_path(p) == normalize_path(q), same, "{p:?} {q:?}");
        }
    }
}

#[test]
fn registration_paths_are_absolute_and_plain() {
    assert!(validate_registration_path("/home/u/ws").is_ok());
    assert!(validate_registration_path("/home/./u").is_ok());
    for bad in ["", "relative", "/with\0nul"] {
        assert_eq!(
            validate_registration_path(bad),
            Err("registration path must be a non-empty absolute path".to_string())
        );
    }
    assert_eq!(
        validate_registration_path("/home/../etc"),
        Err("registration path must not contain '.' or '..' components".to_string())
    );
}
