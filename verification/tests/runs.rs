use ws_ckpt::checkpoint::{CheckpointEvent, CheckpointStage, IdentityEvent, IdentityStage};
use ws_ckpt::config::{DaemonConfig, WsCkptError};
use ws_ckpt::guarded::GuardedRequest;
use ws_ckpt::ids::generate_ws_id_base;
use ws_ckpt::index::{SnapshotIndex, StringSet};
use ws_ckpt::init::{InitEvent, InitStage};
use ws_ckpt::lifecycle::{EarlyLook, Found, Resolution};
use ws_ckpt::message::{
    ErrorCode, GuardedCheckpointRejectionCodeV2, Response, StatusReport, WorkspaceInfo,
};
use ws_ckpt::overrides::{PolicyChange, PolicyEvent, PolicyStage};
use ws_ckpt::policy::{
    load_workspace_policy_with_failsafe, LoadPolicyOutcome, PolicyFieldOp, WorkspacePolicy,
};
use ws_ckpt::recovery::{RecoverEvent, RecoverStage};
use ws_ckpt::removal::{DeleteEvent, DeleteStage, TeardownEvent, TeardownStage};
use ws_ckpt::restore::{PersistedWorkspace, SnapshotBucket};
use ws_ckpt::snapshot::{
    Duplicate, GuardedCheckpointEvidenceV2, GuardedCheckpointOutcomeV2, SnapshotMeta, Timestamp,
    WorkspaceGenerationTokenV2,
};
use ws_ckpt::state::{DaemonState, PathKind, RegistrationFacts};
use ws_ckpt::string_map::StringMap;

fn new_state() -> DaemonState {
    DaemonState::new(
        DaemonConfig { mount_path: "/mnt/pool".to_string(), ..DaemonConfig::default() },
        "/mnt/pool".to_string(),
        "/mnt/pool/snapshots".to_string(),
        "/state".to_string(),
    )
}

fn index(path: &str, ids: &[&str]) -> SnapshotIndex {
    let mut i = SnapshotIndex::new(path.to_string());
    for id in ids {
        i.snapshots.insert(
            id.to_string(),
            SnapshotMeta {
                message: None,
                metadata: None,
                pinned: false,
                created_at: Timestamp::new(1_700_000_000, 0).unwrap(),
                missing: false,
                parent_id: None,
                child_ids: vec![],
            },
        );
    }
    i
}

fn names(v: &[&str]) -> StringSet {
    let mut s = StringSet::new();
    for n in v {
        s.insert(n.to_string(), ());
    }
    s
}

fn up_to_names(state: &mut DaemonState, path: &str) -> InitStage {
    let stage = InitStage::begin(&format!("{path}/"));
    assert!(matches!(&stage, InitStage::LookAtPath { path: p } if p == path));
    let stage = stage.advance(state, InitEvent::Looked(EarlyLook::NoLink));
    let stage = stage.advance(state, InitEvent::Resolved(Resolution::Resolved(path.to_string())));
    assert!(matches!(&stage, InitStage::InspectPath { .. }));
    let stage = stage.advance(state, InitEvent::Inspected { found: Found::Directory, link: None });
    let stage = stage.advance(state, InitEvent::MountChecked { mounted: false });
    let stage = stage.advance(state, InitEvent::OccupantsChecked { refusal: None });
    stage.advance(state, InitEvent::ToolChecked { found: true })
}

fn init_error(stage: InitStage) -> (ErrorCode, String) {
    match stage {
        InitStage::Done(Response::Error { code, message }) => (code, message),
        _ => panic!("expected an error"),
    }
}

#[test]
fn a_new_workspace_is_registered_at_the_end() {
    let mut state = new_state();
    let path = "/home/u/project";
    let stage = up_to_names(&mut state, path);
    let base = generate_ws_id_base(path);
    let stage = stage.advance(&mut state, InitEvent::NamesListed(names(&[&base, "other"])));
    match &stage {
        InitStage::CreateStorage { ws_id, .. } => assert_eq!(*ws_id, format!("{base}-2")),
        _ => panic!("expected storage to be created"),
    }
    let stage = stage.advance(&mut state, InitEvent::StorageCreated);
    let stage = stage.advance(&mut state, InitEvent::SnapshotsFound(Some(index(path, &["old"]))));
    assert!(matches!(&stage, InitStage::SaveIndex { index, .. } if index.snapshots.contains_key("old")));
    let stage = stage.advance(&mut state, InitEvent::IndexSaved);
    assert!(state.all_workspaces().is_empty());
    let stage = stage.advance(&mut state, InitEvent::PolicyLoaded(Ok(LoadPolicyOutcome::Missing)));
    match stage {
        InitStage::Done(Response::InitOk { ws_id }) => {
            assert_eq!(state.get_by_path(path).unwrap().ws_id, ws_id);
        }
        _ => panic!("expected success"),
    }
}

#[test]
fn failures_end_an_initialization_without_a_trace() {
    let mut state = new_state();
    let stage = up_to_names(&mut state, "/home/u/p");
    let stage = stage.advance(&mut state, InitEvent::NamesListed(names(&[])));
    let (code, m) =
        init_error(stage.advance(&mut state, InitEvent::Failed("no space: full".to_string())));
    assert_eq!((code, m.as_str()), (ErrorCode::InternalError, "no space: full"));
    assert!(state.all_workspaces().is_empty());
    let blank = init_error(InitStage::begin("  "));
    assert_eq!(blank, (ErrorCode::InvalidPath, "workspace path is empty".to_string()));
}

#[test]
fn what_was_not_asked_for_changes_nothing() {
    let mut state = new_state();
    let stage = InitStage::begin("/a").advance(&mut state, InitEvent::StorageCreated);
    assert!(matches!(&stage, InitStage::LookAtPath { path } if path == "/a"));
    let stage = stage.advance(&mut state, InitEvent::Failed("x".to_string()));
    assert!(matches!(stage, InitStage::LookAtPath { .. }));
}

#[test]
fn orphan_subvolumes_are_adopted() {
    let mut state = new_state();
    let look = EarlyLook::Link { target: "/mnt/pool/ws-abcdef".to_string(), target_exists: true };
    let stage = InitStage::begin("/home/u/w").advance(&mut state, InitEvent::Looked(look));
    assert!(matches!(&stage, InitStage::LoadIndex { ws_id, .. } if ws_id == "ws-abcdef"));
    let stage = stage.advance(&mut state, InitEvent::IndexLoaded(None));
    let stage = stage.advance(&mut state, InitEvent::SnapshotsFound(Some(index("/home/u/w", &["s"]))));
    assert!(matches!(&stage, InitStage::SaveRecovered { .. }));
    let stage = stage.advance(&mut state, InitEvent::Failed("read-only".to_string()));
    let unreadable = Err(WsCkptError::Io("denied".to_string()));
    let stage = stage.advance(&mut state, InitEvent::PolicyLoaded(unreadable));
    assert!(matches!(stage, InitStage::Done(Response::InitOk { .. })));
    let w = state.get_by_wsid("ws-abcdef").unwrap();
    assert!(w.policy_failsafe && w.index.snapshots.contains_key("s"));
}

#[test]
fn broken_links_are_removed_first() {
    let mut state = new_state();
    let look = EarlyLook::Link { target: "/mnt/pool/ws-1".to_string(), target_exists: false };
    let stage = InitStage::begin("/w").advance(&mut state, InitEvent::Looked(look));
    assert!(matches!(&stage, InitStage::RemoveLink { .. }));
    let stage = stage.advance(&mut state, InitEvent::LinkRemoved);
    let (code, _) = init_error(stage.advance(&mut state, InitEvent::Resolved(Resolution::NotFound)));
    assert_eq!(code, ErrorCode::InvalidPath);
}

fn guarded_request() -> GuardedRequest {
    GuardedRequest {
        ws_id: "ws-abcdef".to_string(),
        expected_generation: WorkspaceGenerationTokenV2::from_bytes([1; 32]),
        checkpoint_id: "c1".to_string(),
        operation_digest: [2; 32],
        message: None,
        metadata: None,
        pin: false,
    }
}

fn guarded_state() -> DaemonState {
    let mut state = new_state();
    state.register_workspace("ws-abcdef".to_string(), "/ws".to_string(), index("/ws", &[]));
    state
}

fn up_to_contents(state: &mut DaemonState) -> CheckpointStage {
    let stage = CheckpointStage::begin(state, Some(7), guarded_request());
    let stage = stage.advance(state, CheckpointEvent::RegistrationProbed { live: true });
    let live = Ok(WorkspaceGenerationTokenV2::from_bytes([1; 32]));
    let stage = stage.advance(state, CheckpointEvent::GenerationRead(live));
    let stage = stage.advance(state, CheckpointEvent::RestAwaited { quiescent: true });
    assert!(matches!(&stage, CheckpointStage::InspectContents { .. }));
    stage
}

#[test]
fn guarded_checkpoints_are_recorded_once_saved() {
    let mut state = guarded_state();
    let stage = up_to_contents(&mut state);
    let stage = stage.advance(&mut state, CheckpointEvent::ContentsInspected(Ok(false)));
    assert!(matches!(&stage, CheckpointStage::CreateSnapshot { .. }));
    let at = Timestamp::new(1_700_000_000, 0).unwrap();
    let stage = stage.advance(&mut state, CheckpointEvent::SnapshotCreated(Ok(at)));
    assert!(!state.get_by_wsid("ws-abcdef").unwrap().index.snapshots.contains_key("c1"));
    let stage = stage.advance(&mut state, CheckpointEvent::EvidenceSaved(Ok(())));
    assert!(matches!(stage, CheckpointStage::Done(Response::GuardedCheckpointV2Ok { .. })));
    assert!(state.get_by_wsid("ws-abcdef").unwrap().index.snapshots.contains_key("c1"));
}

#[test]
fn guarded_checkpoints_reject_only_before_the_effect() {
    let mut state = guarded_state();
    let stage = up_to_contents(&mut state);
    let stage = stage.advance(&mut state, CheckpointEvent::ContentsInspected(Ok(false)));
    let stage = stage.advance(&mut state, CheckpointEvent::SnapshotCreated(Err("io".to_string())));
    assert!(matches!(
        stage,
        CheckpointStage::Done(Response::Error { code: ErrorCode::InternalError, .. })
    ));
    let stage = up_to_contents(&mut state);
    let stage = stage.advance(&mut state, CheckpointEvent::ContentsInspected(Ok(true)));
    let stage = stage.advance(&mut state, CheckpointEvent::EvidenceSaved(Err("io".to_string())));
    assert!(matches!(
        stage,
        CheckpointStage::Done(Response::GuardedCheckpointV2Rejected {
            code: GuardedCheckpointRejectionCodeV2::DaemonNotReady,
            ..
        })
    ));
    let stage = CheckpointStage::begin(&state, Some(7), guarded_request());
    state.unregister_workspace("ws-abcdef");
    let stage = stage.advance(&mut state, CheckpointEvent::RegistrationProbed { live: true });
    let live = Ok(WorkspaceGenerationTokenV2::from_bytes([1; 32]));
    let stage = stage.advance(&mut state, CheckpointEvent::GenerationRead(live));
    assert!(matches!(
        stage,
        CheckpointStage::Done(Response::GuardedCheckpointV2Rejected {
            code: GuardedCheckpointRejectionCodeV2::WorkspaceNotFound,
            ..
        })
    ));
}

fn status(paths: &[&str]) -> Response {
    Response::StatusOk {
        report: StatusReport {
            uptime_secs: 0,
            workspaces: paths
                .iter()
                .map(|p| WorkspaceInfo {
                    ws_id: "ws-1".to_string(),
                    path: p.to_string(),
                    snapshot_count: 2,
                })
                .collect(),
            fs_total_bytes: 0,
            fs_used_bytes: 0,
        },
    }
}

fn recovered(path: &str) -> RecoverEvent {
    RecoverEvent::Answered(Response::RecoverOk { workspace: path.to_string() })
}

fn succeeded(stage: RecoverStage) -> bool {
    match stage {
        RecoverStage::Done { success } => success,
        _ => panic!("expected the end"),
    }
}

#[test]
fn batches_fail_if_one_recovery_does() {
    for fails in [false, true] {
        let stage = RecoverStage::begin(None, true, false).unwrap();
        let (lines, stage) = stage.advance(RecoverEvent::Answered(status(&["/a", "/b"])));
        assert_eq!(lines.len(), 4);
        let (lines, stage) = stage.advance(RecoverEvent::Replied("y\n".to_string()));
        assert!(lines.is_empty());
        assert!(matches!(&stage, RecoverStage::Send { targets, done: 0, .. } if targets[0] == "/a"));
        let (lines, stage) = stage.advance(recovered("/a"));
        assert_eq!(lines[0].text, "Workspace recovered: /a");
        let answer = if fails {
            RecoverEvent::Answered(Response::Error {
                code: ErrorCode::BtrfsError,
                message: "busy".to_string(),
            })
        } else {
            recovered("/b")
        };
        let (lines, stage) = stage.advance(answer);
        assert_eq!(lines.len(), 2);
        assert_eq!(lines[0].to_stderr, fails);
        assert_eq!(succeeded(stage), !fails);
    }
}

#[test]
fn recoveries_need_consent() {
    let one = || RecoverStage::begin(Some("/a".to_string()), false, false).unwrap();
    let (lines, stage) = one().advance(RecoverEvent::Answered(status(&["/a"])));
    assert_eq!(lines[0].text, "Workspace: /a (2 snapshots)");
    let (lines, stage) = stage.advance(RecoverEvent::Replied("no".to_string()));
    assert_eq!(lines[0].text, "Operation cancelled.");
    assert!(succeeded(stage));
    let forced = RecoverStage::begin(Some("/a".to_string()), false, true).unwrap();
    let (lines, stage) = forced.advance(RecoverEvent::Answered(status(&["/a"])));
    assert!(lines.is_empty());
    let (lines, stage) = stage.advance(recovered("/a"));
    assert_eq!(lines[0].text, "\u{1b}[32m\u{2713} Workspace recovered: /a\u{1b}[0m");
    assert!(succeeded(stage));
    let (_, stage) = RecoverStage::begin(None, true, true)
        .unwrap()
        .advance(RecoverEvent::Answered(status(&[])));
    assert!(succeeded(stage));
    assert!(RecoverStage::begin(None, false, true).is_err());
    let (_, stage) = one().advance(RecoverEvent::Answered(Response::Error {
        code: ErrorCode::WorkspaceNotFound,
        message: "x".to_string(),
    }));
    assert!(!succeeded(stage));
}

fn persisted(ws_id: &str, path: &str, index: Option<SnapshotIndex>) -> PersistedWorkspace {
    PersistedWorkspace {
        ws_id: ws_id.to_string(),
        path: path.to_string(),
        index,
        policy: Ok(LoadPolicyOutcome::Missing),
    }
}

#[test]
fn restarts_restore_and_reconcile() {
    let mut present: StringMap<StringSet> = StringMap::new();
    present.insert("ws-1".to_string(), names(&["here"]));
    let entries = vec![
        persisted("ws-1", "/a", Some(index("/a", &["here", "gone"]))),
        persisted("ws-2", "/b", None),
        persisted("ws-3", "/c", Some(index("/c", &["lost"]))),
    ];
    let (state, mut changed) = DaemonState::rebuild_from_persisted(
        entries,
        &present,
        DaemonConfig::default(),
        ("/d".to_string(), "/s".to_string()),
        "/state".to_string(),
        "persisted".to_string(),
    );
    changed.sort();
    assert_eq!(changed, ["ws-1", "ws-3"]);
    let missing = |ws: &str, id: &str| {
        state.get_by_wsid(ws).unwrap().index.snapshots.get(id).unwrap().missing
    };
    assert!(!missing("ws-1", "here") && missing("ws-1", "gone") && missing("ws-3", "lost"));
    assert!(state.get_by_path("/b").unwrap().index.snapshots.is_empty());
    assert_eq!(state.selection_method, "persisted");
}

#[test]
fn restarts_without_a_manifest_read_the_buckets() {
    let mut kept = index("/a", &[]);
    kept.governed_evidence.insert(
        "c1".to_string(),
        GuardedCheckpointEvidenceV2 {
            ws_id: "ws-1".to_string(),
            registered_path: "/a".to_string(),
            generation: WorkspaceGenerationTokenV2::from_bytes([1; 32]),
            checkpoint_id: "c1".to_string(),
            operation_digest: [2; 32],
            caller_uid: 1,
            outcome: GuardedCheckpointOutcomeV2::Skipped { reason: "empty".to_string() },
        },
    );
    let bucket = |ws_id: &str, index, found| SnapshotBucket {
        ws_id: ws_id.to_string(),
        index,
        found,
        policy: Ok(LoadPolicyOutcome::Missing),
    };
    let buckets = vec![
        bucket("ws-1", Some(kept), Some(index("/a", &["s"]))),
        bucket("ws-2", None, Some(index("/b", &["s"]))),
        bucket("ws-3", Some(index("/c", &["t"])), None),
    ];
    let (state, to_save) = DaemonState::rebuild_from_disk(
        buckets,
        DaemonConfig::default(),
        ("/d".to_string(), "/s".to_string()),
        "/state".to_string(),
    );
    assert_eq!(to_save, ["ws-1"]);
    let w = state.get_by_path("/a").unwrap();
    assert!(w.index.snapshots.contains_key("s") && w.index.governed_evidence.contains_key("c1"));
    assert!(state.get_by_wsid("ws-2").is_none());
    assert!(state.get_by_path("/c").is_some());
}

#[test]
fn initialized_workspaces_are_recognised() {
    let mut state = guarded_state();
    let stage = InitStage::begin("/ws");
    let look = EarlyLook::Link { target: "/mnt/pool/ws-abcdef".to_string(), target_exists: true };
    let stage = stage.advance(&mut state, InitEvent::Looked(look));
    assert!(matches!(
        stage,
        InitStage::Done(Response::InitOk { ws_id }) if ws_id == "ws-abcdef"
    ));
    let stage = InitStage::begin("/alias");
    let stage = stage.advance(&mut state, InitEvent::Looked(EarlyLook::NoLink));
    let resolved = Resolution::Resolved("/mnt/pool/ws-abcdef".to_string());
    let stage = stage.advance(&mut state, InitEvent::Resolved(resolved));
    let stage = stage
        .advance(&mut state, InitEvent::Inspected { found: Found::Directory, link: None });
    assert!(matches!(
        stage,
        InitStage::Done(Response::InitOk { ws_id }) if ws_id == "ws-abcdef"
    ));
}

fn evidence_found(state: &DaemonState, uid: u32, request: &GuardedRequest) -> bool {
    matches!(
        state.checkpoint_evidence(Some(uid), request),
        Response::CheckpointEvidenceV2Ok { evidence: Some(_) }
    )
}

#[test]
fn evidence_is_read_back() {
    for empty in [false, true] {
        let mut state = guarded_state();
        assert!(!evidence_found(&state, 7, &guarded_request()));
        let stage = up_to_contents(&mut state);
        let mut stage = stage.advance(&mut state, CheckpointEvent::ContentsInspected(Ok(empty)));
        if !empty {
            let at = Timestamp::new(1_700_000_000, 0).unwrap();
            stage = stage.advance(&mut state, CheckpointEvent::SnapshotCreated(Ok(at)));
        }
        stage.advance(&mut state, CheckpointEvent::EvidenceSaved(Ok(())));
        assert!(evidence_found(&state, 7, &guarded_request()));
        assert!(!evidence_found(&state, 8, &guarded_request()));
        let other = GuardedRequest { operation_digest: [3; 32], ..guarded_request() };
        assert!(!evidence_found(&state, 7, &other));
    }
}

#[test]
fn identities_are_found_by_the_exact_path() {
    let state = guarded_state();
    let live = || Ok(WorkspaceGenerationTokenV2::from_bytes([1; 32]));
    let stage = IdentityStage::begin(&state, "/ws");
    let stage = stage.advance(&state, IdentityEvent::GenerationRead(live()));
    let stage = stage.advance(&state, IdentityEvent::RegistrationProbed { live: true });
    let stage = stage.advance(&state, IdentityEvent::GenerationRead(live()));
    match stage {
        IdentityStage::Done(Response::WorkspaceIdentityV2Ok {
            protocol_version,
            ws_id,
            registered_path,
            generation,
        }) => {
            assert_eq!(protocol_version, 2);
            assert_eq!(ws_id, "ws-abcdef");
            assert_eq!(registered_path, "/ws");
            assert!(generation.into_bytes() == [1; 32]);
        }
        _ => panic!("expected an identity"),
    }
    let rejection = |stage: IdentityStage| match stage {
        IdentityStage::Done(Response::GuardedCheckpointV2Rejected { code, .. }) => code,
        _ => panic!("expected a rejection"),
    };
    assert_eq!(
        rejection(IdentityStage::begin(&state, "ws")),
        GuardedCheckpointRejectionCodeV2::InvalidRegistrationPath
    );
    assert_eq!(
        rejection(IdentityStage::begin(&state, "/other")),
        GuardedCheckpointRejectionCodeV2::WorkspaceNotFound
    );
    let other_spelling = IdentityStage::begin(&state, "/ws/")
        .advance(&state, IdentityEvent::RegistrationProbed { live: true });
    assert_eq!(
        rejection(other_spelling),
        GuardedCheckpointRejectionCodeV2::WorkspaceNotFound
    );
    let detached = IdentityStage::begin(&state, "/ws")
        .advance(&state, IdentityEvent::RegistrationProbed { live: false });
    assert_eq!(rejection(detached), GuardedCheckpointRejectionCodeV2::WorkspaceNotFound);
    let unreadable = IdentityStage::begin(&state, "/ws")
        .advance(&state, IdentityEvent::RegistrationProbed { live: true })
        .advance(&state, IdentityEvent::GenerationRead(Err("io".to_string())));
    assert_eq!(rejection(unreadable), GuardedCheckpointRejectionCodeV2::DaemonNotReady);
}

#[test]
fn restarts_restore_what_was_registered() {
    let mut before = new_state();
    before.register_workspace("ws-1".to_string(), "/a//x".to_string(), index("/a/x", &["s"]));
    before.register_workspace("ws-2".to_string(), "/b/".to_string(), index("/b", &[]));
    before.register_workspace("ws-2".to_string(), "/b".to_string(), index("/b", &[]));
    let entries = before
        .registry
        .collect_workspace_entries()
        .into_iter()
        .map(|e| {
            let kept = before.get_by_wsid(&e.ws_id).unwrap();
            persisted(&e.ws_id, &e.workspace_path, Some(kept.index.duplicate()))
        })
        .collect();
    let mut present: StringMap<StringSet> = StringMap::new();
    present.insert("ws-1".to_string(), names(&["s"]));
    let (after, changed) = DaemonState::rebuild_from_persisted(
        entries,
        &present,
        DaemonConfig::default(),
        ("/mnt/pool".to_string(), "/mnt/pool/snapshots".to_string()),
        "/state".to_string(),
        "persisted".to_string(),
    );
    assert!(changed.is_empty());
    assert_eq!(after.all_workspaces().len(), 2);
    assert_eq!(after.get_by_wsid("ws-1").unwrap().path, "/a//x");
    assert_eq!(after.get_by_path("/a/x").unwrap().ws_id, "ws-1");
    assert!(!after.get_by_wsid("ws-1").unwrap().index.snapshots.get("s").unwrap().missing);
    assert_eq!(after.get_by_path("/b").unwrap().ws_id, "ws-2");
    assert_eq!(after.get_by_wsid("ws-2").unwrap().path, "/b/");
}

fn live() -> RegistrationFacts {
    RegistrationFacts {
        registration_target: Some("/mnt/pool/ws-1".to_string()),
        live_target: Some("/mnt/pool/ws-1".to_string()),
        kind: PathKind::Symlink,
    }
}

fn error_of(response: Response) -> (ErrorCode, String) {
    match response {
        Response::Error { code, message } => (code, message),
        _ => panic!("expected an error"),
    }
}

fn delete_error(stage: DeleteStage) -> (ErrorCode, String) {
    match stage {
        DeleteStage::Done(response) => error_of(response),
        _ => panic!("expected the end"),
    }
}

fn has_snapshot(state: &DaemonState, id: &str) -> bool {
    state.get_by_wsid("ws-1").unwrap().index.snapshots.contains_key(id)
}

fn state_with(ids: &[&str]) -> DaemonState {
    let mut state = new_state();
    state.register_workspace("ws-1".to_string(), "/home/u/a".to_string(), index("/home/u/a", ids));
    state
}

/// A deletion up to its plan.
fn up_to_plan(state: &mut DaemonState, snapshot: &str, force: bool) -> DeleteStage {
    let stage = DeleteStage::begin(state, Some("ws-1"), snapshot, force);
    let stage = stage.advance(state, DeleteEvent::PathResolved(None));
    match &stage {
        DeleteStage::ProbeRegistration { ws_id, path, .. } => {
            assert_eq!((ws_id.as_str(), path.as_str()), ("ws-1", "/home/u/a"));
        }
        _ => panic!("expected the registration to be probed"),
    }
    stage.advance(state, DeleteEvent::RegistrationProbed(live()))
}

#[test]
fn snapshots_leave_after_their_subvolumes() {
    let mut state = state_with(&["snap-1", "snap-2"]);
    let stage = up_to_plan(&mut state, "snap-1", false);
    assert!(matches!(&stage, DeleteStage::DeleteSubvolume { ws_id, snapshot_id }
        if ws_id == "ws-1" && snapshot_id == "snap-1"));
    assert!(has_snapshot(&state, "snap-1"));
    let failed = DeleteEvent::SubvolumeDeleted(Err("busy".to_string()));
    let end = stage.advance(&mut state, failed);
    assert_eq!(delete_error(end), (ErrorCode::InternalError, "busy".to_string()));
    assert!(has_snapshot(&state, "snap-1"));

    let stage = up_to_plan(&mut state, "snap-1", false);
    let stage = stage.advance(&mut state, DeleteEvent::IndexSaved(Ok(())));
    assert!(matches!(&stage, DeleteStage::DeleteSubvolume { .. }));
    let stage = stage.advance(&mut state, DeleteEvent::SubvolumeDeleted(Ok(())));
    assert!(matches!(&stage, DeleteStage::SaveIndex { ws_id, .. } if ws_id == "ws-1"));
    assert!(!has_snapshot(&state, "snap-1"));
    assert!(has_snapshot(&state, "snap-2"));
    let stage = stage.advance(&mut state, DeleteEvent::IndexSaved(Ok(())));
    assert!(matches!(&stage, DeleteStage::SaveManifest { .. }));
    let end = stage.advance(&mut state, DeleteEvent::ManifestSaved(Err("full".to_string())));
    assert!(matches!(end, DeleteStage::Done(Response::DeleteOk { target }) if target == "snap-1"));
}

#[test]
fn missing_snapshots_have_no_subvolume_to_delete() {
    let mut state = new_state();
    let mut i = index("/home/u/a", &[]);
    i.snapshots.insert(
        "lost".to_string(),
        SnapshotMeta {
            message: None,
            metadata: None,
            pinned: true,
            created_at: Timestamp::new(1_700_000_000, 0).unwrap(),
            missing: true,
            parent_id: None,
            child_ids: vec![],
        },
    );
    state.register_workspace("ws-1".to_string(), "/home/u/a".to_string(), i);
    let (code, _) = delete_error(up_to_plan(&mut state, "lost", false));
    assert_eq!(code, ErrorCode::ConfirmationRequired);
    assert!(has_snapshot(&state, "lost"));
    let stage = up_to_plan(&mut state, "lost", true);
    assert!(matches!(&stage, DeleteStage::SaveIndex { snapshot_id, .. } if snapshot_id == "lost"));
    assert!(!has_snapshot(&state, "lost"));
    let end = stage.advance(&mut state, DeleteEvent::IndexSaved(Err("full".to_string())));
    assert_eq!(delete_error(end), (ErrorCode::InternalError, "full".to_string()));
}

#[test]
fn snapshots_are_looked_for_everywhere_without_a_workspace() {
    let mut state = state_with(&["snap-1"]);
    let stage = DeleteStage::begin(&state, None, "snap", false);
    match &stage {
        DeleteStage::ResolvePath { request } => {
            assert_eq!(request.workspace, "/home/u/a");
            assert_eq!(request.snapshot, "snap-1");
        }
        _ => panic!("expected the snapshot to be found"),
    }
    let none = delete_error(DeleteStage::begin(&state, None, "other", false));
    assert_eq!(none, (ErrorCode::SnapshotNotFound, "snapshot not found: other".to_string()));
    state.register_workspace(
        "ws-2".to_string(),
        "/home/u/b".to_string(),
        index("/home/u/b", &["snap-1"]),
    );
    let (_, several) = delete_error(DeleteStage::begin(&state, None, "snap-1", false));
    assert!(several.contains("multiple workspaces"), "{several}");
    let unknown = DeleteStage::begin(&state, Some("/nowhere"), "snap-1", false);
    let (code, _) = delete_error(unknown.advance(&mut state, DeleteEvent::PathResolved(None)));
    assert_eq!(code, ErrorCode::WorkspaceNotFound);
}

#[test]
fn workspaces_leave_after_their_storage() {
    let mut state = state_with(&["snap-1"]);
    let begun = |state: &mut DaemonState| {
        let resolved = TeardownEvent::PathResolved(Some("/home/u/a".to_string()));
        TeardownStage::begin("../a").advance(state, resolved)
    };
    let stage = begun(&mut state);
    assert!(matches!(&stage, TeardownStage::RecoverStorage { ws_id, path }
        if ws_id == "ws-1" && path == "/home/u/a"));
    let failed = TeardownEvent::StorageRecovered(Err("busy".to_string()));
    match stage.advance(&mut state, failed) {
        TeardownStage::Done(r) => {
            assert_eq!(error_of(r), (ErrorCode::InternalError, "busy".to_string()));
        }
        _ => panic!("expected the end"),
    }
    assert!(state.get_by_wsid("ws-1").is_some());

    let stage = begun(&mut state);
    let stage = stage.advance(&mut state, TeardownEvent::StorageRecovered(Ok(())));
    assert!(matches!(&stage, TeardownStage::WipeIndex { ws_id, .. } if ws_id == "ws-1"));
    assert!(state.get_by_wsid("ws-1").is_none());
    let stage = stage.advance(&mut state, TeardownEvent::IndexWiped(Err("denied".to_string())));
    let end = stage.advance(&mut state, TeardownEvent::ManifestSaved(Err("full".to_string())));
    assert!(matches!(end, TeardownStage::Done(Response::RecoverOk { workspace })
        if workspace == "/home/u/a"));
    assert!(matches!(begun(&mut state), TeardownStage::Done(Response::Error { code, .. })
        if code == ErrorCode::WorkspaceNotFound));
}

fn patch(auto_cleanup: bool) -> PolicyChange {
    PolicyChange::Patch {
        auto_cleanup: PolicyFieldOp::SetTo(auto_cleanup),
        auto_cleanup_keep: PolicyFieldOp::Unchanged,
    }
}

fn override_of(state: &DaemonState) -> Option<bool> {
    state.get_by_wsid("ws-1").unwrap().policy.auto_cleanup
}

#[test]
fn policies_in_memory_follow_their_files() {
    let mut state = state_with(&[]);
    let stage = PolicyStage::begin(&state, "ws-1", None, patch(true));
    assert!(matches!(&stage, PolicyStage::SaveFile { ws_id, policy }
        if ws_id == "ws-1" && policy.auto_cleanup == Some(true)));
    let end = stage.advance(&mut state, PolicyEvent::Saved(Err("full".to_string())));
    match end {
        PolicyStage::Done(r) => {
            let expected = "Failed to persist policy.toml: full".to_string();
            assert_eq!(error_of(r), (ErrorCode::InternalError, expected));
        }
        _ => panic!("expected the end"),
    }
    assert_eq!(override_of(&state), None);

    let stage = PolicyStage::begin(&state, "ws-1", None, patch(true));
    let end = stage.advance(&mut state, PolicyEvent::Saved(Ok(())));
    assert!(matches!(end, PolicyStage::Done(ref r) if !matches!(r, Response::Error { .. })));
    assert_eq!(override_of(&state), Some(true));

    let stage = PolicyStage::begin(&state, "ws-1", None, PolicyChange::Reset);
    let end = stage.advance(&mut state, PolicyEvent::Deleted(Err("denied".to_string())));
    assert!(matches!(end, PolicyStage::Done(Response::Error { message, .. })
        if message == "Failed to delete policy.toml: denied"));
    assert_eq!(override_of(&state), Some(true));
    let stage = PolicyStage::begin(&state, "/home/u/a", None, PolicyChange::Reset);
    stage.advance(&mut state, PolicyEvent::Deleted(Ok(())));
    assert_eq!(override_of(&state), None);

    let stage = PolicyStage::begin(&state, "ws-1", None, PolicyChange::Reload);
    let read = WorkspacePolicy { auto_cleanup: Some(false), auto_cleanup_keep: None };
    let end = stage.advance(&mut state, PolicyEvent::Loaded(Ok(LoadPolicyOutcome::Loaded(read))));
    assert!(matches!(end, PolicyStage::Done(Response::ReloadConfigOk { file: None, .. })));
    assert_eq!(override_of(&state), Some(false));

    let unknown = PolicyStage::begin(&state, "ws-9", None, PolicyChange::Reset);
    assert!(matches!(unknown, PolicyStage::Done(Response::Error { code, .. })
        if code == ErrorCode::WorkspaceNotFound));
}

#[test]
fn stand_in_policies_are_not_saved() {
    let mut state = state_with(&[]);
    let unreadable = Err(WsCkptError::Config("bad".to_string()));
    let (policy, failsafe) = load_workspace_policy_with_failsafe(unreadable);
    assert!(failsafe);
    state.register_workspace_with_policy(
        "ws-1".to_string(),
        "/home/u/a".to_string(),
        index("/home/u/a", &[]),
        policy,
        failsafe,
    );
    match PolicyStage::begin(&state, "ws-1", None, patch(true)) {
        PolicyStage::Done(r) => assert_eq!(error_of(r).0, ErrorCode::InternalError),
        _ => panic!("expected a refusal"),
    }
    let stage = PolicyStage::begin(&state, "ws-1", None, PolicyChange::Reset);
    stage.advance(&mut state, PolicyEvent::Deleted(Ok(())));
    let stage = PolicyStage::begin(&state, "ws-1", None, patch(true));
    assert!(matches!(stage, PolicyStage::SaveFile { .. }));
}
