use ws_ckpt::config::{DaemonConfig, FileConfig, WsCkptError};
use ws_ckpt::dispatch::{
    after_auto_init, after_failure, next_action, Action, DispatchContext, Stage,
};
use ws_ckpt::index::SnapshotIndex;
use ws_ckpt::message::{ErrorCode, Request, Response};
use ws_ckpt::policy::{LoadPolicyOutcome, PolicyFieldOp, WorkspacePolicy};
use ws_ckpt::retention::CleanupRetention;
use ws_ckpt::snapshot::{SnapshotMeta, Timestamp};
use ws_ckpt::state::{
    detached_registration_error, plan_patch, DaemonState, PathKind, RegistrationFacts,
};

fn new_state(config: DaemonConfig) -> DaemonState {
    DaemonState::new(
        config,
        "/tmp/test-mount".to_string(),
        "/tmp/test-mount/snapshots".to_string(),
        "/tmp/test-state".to_string(),
    )
}

fn test_state() -> DaemonState {
    new_state(DaemonConfig::default())
}

fn index(path: &str) -> SnapshotIndex {
    SnapshotIndex::new(path.to_string())
}

fn meta() -> SnapshotMeta {
    SnapshotMeta {
        message: None,
        metadata: None,
        pinned: false,
        created_at: Timestamp::new(1_700_000_000, 0).unwrap(),
        missing: false,
        parent_id: None,
        child_ids: vec![],
    }
}

fn live() -> RegistrationFacts {
    RegistrationFacts {
        registration_target: Some("/data/ws".to_string()),
        live_target: Some("/data//ws/".to_string()),
        kind: PathKind::Symlink,
    }
}

fn gone(kind: PathKind) -> RegistrationFacts {
    RegistrationFacts { registration_target: None, live_target: Some("/data/ws".to_string()), kind }
}

fn expect_error(r: &Response) -> (ErrorCode, String) {
    match r {
        Response::Error { code, message } => (*code, message.clone()),
        _ => panic!("expected an error"),
    }
}

#[test]
fn new_state_has_empty_workspaces() {
    assert!(test_state().all_workspaces().is_empty());
}

#[test]
fn register_and_get_by_wsid() {
    let mut state = test_state();
    state.register_workspace("ws-abc".to_string(), "/home/user/ws".to_string(), index("/home/user/ws"));
    assert!(state.get_by_wsid("ws-abc").is_some());
}

#[test]
fn register_and_get_by_path() {
    let mut state = test_state();
    let path = "/home/user/project";
    state.register_workspace("ws-001".to_string(), path.to_string(), index(path));
    assert!(state.get_by_path(path).is_some());
    assert!(state.get_by_path("/home//user/./project/").is_some());
    assert!(state.get_by_path("home/user/project").is_none());
}

#[test]
fn register_and_verify_ws_id_content() {
    let mut state = test_state();
    let path = "/home/user/ws2";
    state.register_workspace("ws-xyz".to_string(), path.to_string(), index(path));
    let ws = state.get_by_wsid("ws-xyz").unwrap();
    assert_eq!(ws.ws_id, "ws-xyz");
    assert_eq!(ws.path, path);
    assert!(ws.index.snapshots.is_empty());
}

#[test]
fn get_by_wsid_nonexistent_returns_none() {
    assert!(test_state().get_by_wsid("nonexistent").is_none());
}

#[test]
fn get_by_path_nonexistent_returns_none() {
    assert!(test_state().get_by_path("/no/such/path").is_none());
}

#[test]
fn resolve_workspace_by_wsid() {
    let mut state = test_state();
    state.register_workspace("ws-abc123".to_string(), "/home/user/ws".to_string(), index("/home/user/ws"));
    assert!(state.resolve_workspace("ws-abc123", None).is_some());
}

#[test]
fn resolve_workspace_by_path() {
    let mut state = test_state();
    state.register_workspace("ws-path-test".to_string(), "/real/ws".to_string(), index("/real/ws"));
    assert!(state.resolve_workspace("/link/ws/", Some("/real/ws")).is_some());
    assert!(state.resolve_workspace("/real/ws//", None).is_some());
    assert!(state.resolve_workspace("/real/ws", Some("/data/ws-path-test")).is_some());
}

#[test]
fn resolve_workspace_not_found_returns_none() {
    let state = test_state();
    assert!(state.resolve_workspace("nonexistent", None).is_none());
    assert!(state.resolve_workspace("/no/such/path", None).is_none());
    assert!(state.resolve_workspace(" \t", Some("/x")).is_none());
}

#[test]
fn path_to_wsid_bidirectional_mapping() {
    let mut state = test_state();
    state.register_workspace("ws-map".to_string(), "/home/user/myws".to_string(), index("/home/user/myws"));
    assert_eq!(state.get_by_path("/home/user/myws").unwrap().ws_id, "ws-map");
}

#[test]
fn duplicate_register_overwrites() {
    let mut state = test_state();
    let first = state.register_workspace("ws-dup".to_string(), "/ws/first".to_string(), index("/ws/first"));
    let second = state.register_workspace("ws-dup".to_string(), "/ws/second".to_string(), index("/ws/second"));
    assert_eq!(state.get_by_wsid("ws-dup").unwrap().path, "/ws/second");
    assert!(first < second);
    assert!(state.registry.exact_registration_is_current("/ws/second", "ws-dup", second));
    assert!(!state.registry.exact_registration_is_current("/ws/second", "ws-dup", first));
    assert!(!state.registry.exact_registration_is_current("/ws/third", "ws-dup", second));
}

#[test]
fn unregister_workspace_removes_both_mappings() {
    let mut state = test_state();
    let path = "/home/user/removable";
    state.register_workspace("ws-rm".to_string(), path.to_string(), index(path));
    assert!(state.get_by_wsid("ws-rm").is_some());
    assert!(state.get_by_path(path).is_some());
    state.unregister_workspace("ws-rm");
    assert!(state.get_by_wsid("ws-rm").is_none());
    assert!(state.get_by_path(path).is_none());
}

#[test]
fn all_workspaces_returns_all_registered() {
    let mut state = test_state();
    state.register_workspace("ws-a".to_string(), "/a".to_string(), index("/a"));
    state.register_workspace("ws-b".to_string(), "/b".to_string(), index("/b"));
    assert_eq!(state.all_workspaces().len(), 2);
}

#[test]
fn resolve_snapshot_globally_exact_match() {
    let mut state = test_state();
    let mut idx = index("/home/user/ws");
    let mut m = meta();
    m.message = Some("test".to_string());
    idx.snapshots.insert("abcdef1234567890abcdef1234567890abcdef12".to_string(), m);
    state.register_workspace("ws-abc".to_string(), "/home/user/ws".to_string(), idx);
    let result = state.resolve_snapshot_globally("abcdef1234567890abcdef1234567890abcdef12");
    assert!(result.is_some());
    let (ws_path, snap_id) = result.unwrap();
    assert_eq!(ws_path, "/home/user/ws");
    assert_eq!(snap_id, "abcdef1234567890abcdef1234567890abcdef12");
}

#[test]
fn resolve_snapshot_globally_prefix_match() {
    let mut state = test_state();
    let mut idx = index("/ws1");
    idx.snapshots.insert("abcdef1234567890abcdef1234567890abcdef12".to_string(), meta());
    state.register_workspace("ws-1".to_string(), "/ws1".to_string(), idx);
    let (_, snap_id) = state.resolve_snapshot_globally("abcdef").unwrap();
    assert_eq!(snap_id, "abcdef1234567890abcdef1234567890abcdef12");
}

#[test]
fn resolve_snapshot_globally_not_found() {
    let mut state = test_state();
    state.register_workspace("ws-1".to_string(), "/ws1".to_string(), index("/ws1"));
    assert!(state.resolve_snapshot_globally("nonexistent").is_none());
}

#[test]
fn resolve_snapshot_globally_ambiguous_cross_workspace() {
    let mut state = test_state();
    let mut idx1 = index("/ws1");
    idx1.snapshots.insert("abcdef1111111111111111111111111111111111".to_string(), meta());
    state.register_workspace("ws-1".to_string(), "/ws1".to_string(), idx1);
    let mut idx2 = index("/ws2");
    idx2.snapshots.insert("abcdef2222222222222222222222222222222222".to_string(), meta());
    state.register_workspace("ws-2".to_string(), "/ws2".to_string(), idx2);
    assert!(state.resolve_snapshot_globally("abcdef").is_none());
    let (code, message) = expect_error(&state.delete_target("abcdef").unwrap_err());
    assert_eq!(code, ErrorCode::SnapshotNotFound);
    assert_eq!(
        message,
        "snapshot 'abcdef' matches in multiple workspaces, please specify --workspace/-w"
    );
    let (_, message) = expect_error(&state.delete_target("zzz").unwrap_err());
    assert_eq!(message, "snapshot not found: zzz");
    assert_eq!(state.delete_target("abcdef1").ok().unwrap().0, "/ws1");
}

#[test]
fn delete_target_ambiguous_within_one_workspace() {
    let mut state = test_state();
    let mut idx = index("/ws1");
    idx.snapshots.insert("ab1".to_string(), meta());
    idx.snapshots.insert("ab2".to_string(), meta());
    state.register_workspace("ws-1".to_string(), "/ws1".to_string(), idx);
    let (_, message) = expect_error(&state.delete_target("ab").unwrap_err());
    assert!(message.contains("multiple workspaces"));
}

#[test]
fn register_workspace_default_policy_is_inherit_global() {
    let mut state = test_state();
    state.register_workspace("ws-i".to_string(), "/ws/inherit".to_string(), index("/ws/inherit"));
    assert!(state.get_by_wsid("ws-i").unwrap().policy.is_empty());
}

#[test]
fn any_ws_has_effective_cleanup_covers_global_and_local_paths() {
    let mut state = test_state();
    assert!(!state.any_ws_has_effective_cleanup());
    state.register_workspace("ws-a".to_string(), "/ws/a".to_string(), index("/ws/a"));
    assert!(!state.any_ws_has_effective_cleanup());
    let on = WorkspacePolicy { auto_cleanup: Some(true), auto_cleanup_keep: None };
    state.register_workspace_with_policy("ws-b".to_string(), "/ws/b".to_string(), index("/ws/b"), on, false);
    assert!(state.any_ws_has_effective_cleanup());
    let off = WorkspacePolicy { auto_cleanup: Some(false), auto_cleanup_keep: None };
    state.register_workspace_with_policy("ws-c".to_string(), "/ws/c".to_string(), index("/ws/c"), off, false);
    assert!(state.any_ws_has_effective_cleanup());
}

#[test]
fn any_ws_has_effective_cleanup_global_keep_disabled_per_ws_overrides() {
    let mut state = new_state(DaemonConfig {
        auto_cleanup: true,
        auto_cleanup_keep: CleanupRetention::Count(0),
        ..DaemonConfig::default()
    });
    state.register_workspace("ws-a".to_string(), "/ws/a".to_string(), index("/ws/a"));
    assert!(!state.any_ws_has_effective_cleanup());
    let keep = WorkspacePolicy {
        auto_cleanup: None,
        auto_cleanup_keep: Some(CleanupRetention::Count(5)),
    };
    state.register_workspace_with_policy("ws-b".to_string(), "/ws/b".to_string(), index("/ws/b"), keep, false);
    assert!(state.any_ws_has_effective_cleanup());
}

#[test]
fn reload_all_workspace_policies_picks_up_disk_changes() {
    let mut state = test_state();
    state.register_workspace("ws-reload".to_string(), "/ws/reload".to_string(), index("/ws/reload"));
    let new_policy = WorkspacePolicy {
        auto_cleanup: Some(true),
        auto_cleanup_keep: Some(CleanupRetention::Count(7)),
    };
    assert!(state.get_by_wsid("ws-reload").unwrap().policy.is_empty());
    let reads = vec![(
        "ws-reload".to_string(),
        Ok(LoadPolicyOutcome::Loaded(new_policy.clone())),
    )];
    match state.finish_reload(Ok(FileConfig::default()), reads) {
        Response::ReloadConfigOk { file, .. } => assert_eq!(file, Some(FileConfig::default())),
        _ => panic!("expected ReloadConfigOk"),
    }
    assert_eq!(state.get_by_wsid("ws-reload").unwrap().policy, new_policy);
}

#[test]
fn reload_clears_failsafe_when_disk_read_succeeds() {
    let mut state = test_state();
    let id = "ws-failsafe-reload";
    let stand_in = WorkspacePolicy { auto_cleanup: Some(false), auto_cleanup_keep: None };
    state.register_workspace_with_policy(id.to_string(), "/ws/f".to_string(), index("/ws/f"), stand_in.clone(), true);
    assert!(state.reload_workspace_policy(id, Err(WsCkptError::Io("busy".to_string()))));
    assert!(state.get_by_wsid(id).unwrap().policy_failsafe);
    assert_eq!(state.get_by_wsid(id).unwrap().policy, stand_in);
    let real = WorkspacePolicy {
        auto_cleanup: Some(true),
        auto_cleanup_keep: Some(CleanupRetention::Count(100)),
    };
    assert!(state.reload_workspace_policy(id, Ok(LoadPolicyOutcome::Loaded(real.clone()))));
    let ws = state.get_by_wsid(id).unwrap();
    assert_eq!(ws.policy, real);
    assert!(!ws.policy_failsafe, "successful reload must drop the fail-safe marker");
    assert!(!state.reload_workspace_policy("ws-unknown", Ok(LoadPolicyOutcome::Missing)));
}

#[test]
fn reregister_same_wsid_new_path() {
    let mut state = test_state();
    state.register_workspace("ws-move".to_string(), "/ws/old".to_string(), index("/ws/old"));
    state.register_workspace("ws-move".to_string(), "/ws/new".to_string(), index("/ws/new"));
    let ws = state.get_by_path("/ws/new").unwrap();
    assert_eq!(ws.ws_id, "ws-move");
    assert_eq!(ws.path, "/ws/new");
    assert_eq!(state.get_by_path("/ws/old").unwrap().path, "/ws/new");
}

#[test]
fn path_count_after_reregister() {
    let mut state = test_state();
    state.register_workspace("ws-cnt".to_string(), "/first".to_string(), index("/first"));
    state.register_workspace("ws-cnt".to_string(), "/second".to_string(), index("/second"));
    let entries = state.registry.collect_workspace_entries();
    assert_eq!(state.all_workspaces().len(), 1);
    assert!(
        entries.iter().any(|e| e.ws_id == "ws-cnt"),
        "workspace should appear in collected entries"
    );
    state.unregister_workspace("ws-cnt");
    assert!(state.registry.collect_workspace_entries().is_empty());
}

#[test]
fn index_dir_lies_in_the_state_directory() {
    assert_eq!(test_state().index_dir("ws-1"), "/tmp/test-state/indexes/ws-1");
}

#[test]
fn detached_registrations_are_explained() {
    let mut state = test_state();
    state.register_workspace("ws-d".to_string(), "/ws/d".to_string(), index("/ws/d"));
    let ws = state.get_by_wsid("ws-d").unwrap();
    assert!(detached_registration_error(ws, &live()).is_none());
    let say = |kind| {
        let r = detached_registration_error(ws, &gone(kind)).unwrap();
        let (code, m) = expect_error(&r);
        assert_eq!(code, ErrorCode::InternalError);
        m
    };
    assert_eq!(
        say(PathKind::Absent),
        "workspace registered (ws_id=ws-d) but the registered path no longer exists; run 'ws-ckpt recover -w /ws/d' to restore, then re-init"
    );
    assert!(say(PathKind::NotSymlink).contains("regular directory"));
    assert!(say(PathKind::Symlink).contains("no longer points at the live workspace"));
}

#[test]
fn status_of_one_workspace_and_of_all() {
    let mut state = test_state();
    let mut idx = index("/ws/a");
    idx.snapshots.insert("s1".to_string(), meta());
    state.register_workspace("ws-a".to_string(), "/ws/a".to_string(), idx);
    state.register_workspace("ws-b".to_string(), "/ws/b".to_string(), index("/ws/b"));
    match state.handle_status(Some("ws-a"), None, &live(), 7, Some((10, 4))) {
        Response::StatusOk { report } => {
            assert_eq!(report.uptime_secs, 7);
            assert_eq!((report.fs_total_bytes, report.fs_used_bytes), (10, 4));
            assert_eq!(report.workspaces.len(), 1);
            assert_eq!(report.workspaces[0].snapshot_count, 1);
            assert_eq!(report.workspaces[0].path, "/ws/a");
        }
        _ => panic!("expected StatusOk"),
    }
    match state.handle_status(None, None, &gone(PathKind::Absent), 0, None) {
        Response::StatusOk { report } => {
            assert_eq!(report.workspaces.len(), 2);
            assert_eq!(report.fs_total_bytes, 0);
        }
        _ => panic!("expected StatusOk"),
    }
    let r = state.handle_status(Some("nope"), None, &live(), 0, None);
    assert_eq!(
        expect_error(&r),
        (ErrorCode::WorkspaceNotFound, "workspace not found: nope".to_string())
    );
    let r = state.handle_status(Some("ws-a"), None, &gone(PathKind::Absent), 0, None);
    assert!(expect_error(&r).1.contains("recover"));
}

#[test]
fn health_advisory_counts_workspaces_over_the_limit() {
    let mut state = test_state();
    let mut big = index("/ws/big");
    for i in 0..1001 {
        big.snapshots.insert(format!("s{i:04}"), meta());
    }
    let mut full = index("/ws/full");
    for i in 0..1000 {
        full.snapshots.insert(format!("s{i:04}"), meta());
    }
    state.register_workspace("ws-big".to_string(), "/ws/big".to_string(), big);
    state.register_workspace("ws-full".to_string(), "/ws/full".to_string(), full);
    match state.handle_health_advisory(Some((100, 95))) {
        Response::HealthAdvisoryOk { over_limit_workspace_count, fs_total_bytes, fs_used_bytes } => {
            assert_eq!(over_limit_workspace_count, 1);
            assert_eq!((fs_total_bytes, fs_used_bytes), (100, 95));
        }
        _ => panic!("expected HealthAdvisoryOk"),
    }
}

#[test]
fn overview_counts_overrides() {
    let mut state = test_state();
    state.register_workspace("ws-a".to_string(), "/a".to_string(), index("/a"));
    let on = WorkspacePolicy { auto_cleanup: Some(true), auto_cleanup_keep: None };
    state.register_workspace_with_policy("ws-b".to_string(), "/b".to_string(), index("/b"), on, false);
    match state.handle_config_overview() {
        Response::ConfigOverviewOk { config, ws_total, ws_with_override } => {
            assert_eq!((ws_total, ws_with_override), (2, 1));
            assert_eq!(config.log_level, "info");
        }
        _ => panic!("expected ConfigOverviewOk"),
    }
}

fn patch(
    state: &mut DaemonState,
    id: &str,
    auto_cleanup: PolicyFieldOp<bool>,
    keep: PolicyFieldOp<CleanupRetention>,
) -> Response {
    match plan_patch(state.get_by_wsid(id).unwrap(), auto_cleanup, keep) {
        Ok(policy) => state.finish_patch(id, policy, Ok(())),
        Err(e) => e,
    }
}

fn local(r: Response) -> WorkspacePolicy {
    match r {
        Response::WorkspacePolicyOk { local, .. } => local,
        _ => panic!("expected WorkspacePolicyOk"),
    }
}

#[test]
fn dispatch_get_workspace_policy_returns_global_default_for_clean_ws() {
    let mut state = test_state();
    state.register_workspace("ws-clean".to_string(), "/ws/clean".to_string(), index("/ws/clean"));
    match state.handle_get_workspace_policy("ws-clean", None) {
        Response::WorkspacePolicyOk { ws_id, effective, local, global } => {
            assert_eq!(ws_id, "ws-clean");
            assert!(local.is_empty(), "fresh ws should have no local override");
            assert_eq!(effective.auto_cleanup, global.auto_cleanup);
            assert_eq!(effective.auto_cleanup_keep, global.auto_cleanup_keep);
        }
        _ => panic!("expected WorkspacePolicyOk"),
    }
    let r = state.handle_get_workspace_policy("ws-none", None);
    assert_eq!(expect_error(&r).0, ErrorCode::WorkspaceNotFound);
}

#[test]
fn dispatch_reset_workspace_policy_is_idempotent_on_empty_policy() {
    let mut state = test_state();
    state.register_workspace("ws-reset-noop".to_string(), "/ws/r".to_string(), index("/ws/r"));
    assert!(local(state.finish_reset("ws-reset-noop", Ok(()))).is_empty());
    assert!(local(state.finish_reset("ws-reset-noop", Ok(()))).is_empty());
}

#[test]
fn dispatch_patch_workspace_policy_refuses_when_failsafe() {
    let mut state = test_state();
    let id = "ws-failsafe";
    let stand_in = WorkspacePolicy { auto_cleanup: Some(false), auto_cleanup_keep: None };
    state.register_workspace_with_policy(id.to_string(), "/ws/failsafe".to_string(), index("/ws/failsafe"), stand_in, true);
    let keep = || PolicyFieldOp::SetTo(CleanupRetention::Count(50));
    let refused = patch(&mut state, id, PolicyFieldOp::Unchanged, keep());
    let (code, message) = expect_error(&refused);
    assert_eq!(code, ErrorCode::InternalError);
    assert!(message.contains("fail-safe") && message.contains("--reset"), "{message}");
    assert!(local(state.finish_reset(id, Ok(()))).is_empty());
    let after = local(patch(&mut state, id, PolicyFieldOp::Unchanged, keep()));
    assert_eq!(after.auto_cleanup_keep, Some(CleanupRetention::Count(50)));
}

#[test]
fn dispatch_patch_workspace_policy_sequential_accumulates() {
    let mut state = test_state();
    let id = "ws-patch-seq";
    state.register_workspace(id.to_string(), "/ws/patch-seq".to_string(), index("/ws/patch-seq"));
    let l = local(patch(&mut state, id, PolicyFieldOp::SetTo(true), PolicyFieldOp::Unchanged));
    assert_eq!(l.auto_cleanup, Some(true));
    assert_eq!(l.auto_cleanup_keep, None);
    let l = local(patch(
        &mut state,
        id,
        PolicyFieldOp::Unchanged,
        PolicyFieldOp::SetTo(CleanupRetention::Count(11)),
    ));
    assert_eq!(l.auto_cleanup, Some(true));
    assert_eq!(l.auto_cleanup_keep, Some(CleanupRetention::Count(11)));
    let l = local(patch(&mut state, id, PolicyFieldOp::SetTo(false), PolicyFieldOp::Unchanged));
    assert_eq!(l.auto_cleanup, Some(false));
    assert_eq!(l.auto_cleanup_keep, Some(CleanupRetention::Count(11)));
}

#[test]
fn failed_saves_leave_the_policy_alone() {
    let mut state = test_state();
    state.register_workspace("ws-p".to_string(), "/ws/p".to_string(), index("/ws/p"));
    let on = WorkspacePolicy { auto_cleanup: Some(true), auto_cleanup_keep: None };
    let r = state.finish_patch("ws-p", on.clone(), Err("disk full".to_string()));
    assert_eq!(
        expect_error(&r),
        (ErrorCode::InternalError, "Failed to persist policy.toml: disk full".to_string())
    );
    assert!(state.get_by_wsid("ws-p").unwrap().policy.is_empty());
    state.finish_patch("ws-p", on.clone(), Ok(()));
    let r = state.finish_reset("ws-p", Err("denied".to_string()));
    assert_eq!(expect_error(&r).1, "Failed to delete policy.toml: denied");
    assert_eq!(state.get_by_wsid("ws-p").unwrap().policy, on);
}

#[test]
fn reload_applies_the_file_and_keeps_image_settings() {
    let mut state = test_state();
    let file = FileConfig {
        auto_cleanup: Some(true),
        auto_cleanup_keep: Some(CleanupRetention::Count(3)),
        auto_cleanup_interval_secs: Some(600),
        ..FileConfig::default()
    };
    match state.finish_reload_global(Ok(file)) {
        Response::ReloadConfigOk { config, .. } => {
            assert!(config.auto_cleanup);
            assert_eq!(config.auto_cleanup_keep, CleanupRetention::Count(3));
            assert_eq!(config.auto_cleanup_interval_secs, 600);
            assert_eq!(config.health_check_interval_secs, 300);
            assert_eq!(config.img_size, 30);
        }
        _ => panic!("expected ReloadConfigOk"),
    }
    let r = state.finish_reload_global(Err(WsCkptError::Config("bad toml".to_string())));
    assert_eq!(
        expect_error(&r),
        (ErrorCode::InternalError, "Failed to reload config: config error: bad toml".to_string())
    );
    assert!(state.config.auto_cleanup);
}

#[test]
fn requests_are_prepared_in_order() {
    let checkpoint = Request::Checkpoint {
        workspace: "/ws".to_string(),
        id: "a".to_string(),
        message: None,
        metadata: None,
        pin: false,
    };
    assert_eq!(next_action(&checkpoint, Stage::Start), Action::BringUpStorage);
    assert_eq!(next_action(&checkpoint, Stage::StorageUp), Action::LookUpWorkspace);
    assert_eq!(
        next_action(&checkpoint, Stage::LookedUp { registered: false }),
        Action::Initialize
    );
    assert_eq!(
        next_action(&checkpoint, Stage::LookedUp { registered: true }),
        Action::Perform
    );
    assert_eq!(next_action(&checkpoint, Stage::Initialized), Action::Perform);
    assert_eq!(next_action(&Request::Config, Stage::Start), Action::Perform);
    let list = Request::List { workspace: None, format: None };
    assert_eq!(next_action(&list, Stage::Start), Action::Perform);
}

#[test]
fn auto_init_passes_only_what_is_initialized() {
    assert!(after_auto_init(Response::InitOk { ws_id: "ws-1".to_string() }).is_none());
    let again = Response::Error {
        code: ErrorCode::AlreadyInitialized,
        message: "again".to_string(),
    };
    assert!(after_auto_init(again).is_none());
    let bad = Response::Error { code: ErrorCode::InvalidPath, message: "bad".to_string() };
    assert_eq!(expect_error(&after_auto_init(bad).unwrap()).1, "bad");
}

#[test]
fn dispatch_error_wrapping_pattern() {
    let (code, message) = expect_error(&after_failure("test error"));
    assert_eq!(code, ErrorCode::InternalError);
    assert!(message.contains("test error"));
}

#[test]
fn memory_answers_what_it_can() {
    let state = test_state();
    let ctx = DispatchContext::new(Some(1000));
    assert_eq!(ctx.peer_uid(), Some(1000));
    assert!(matches!(
        state.answer_from_memory(&Request::Config, ctx, None),
        Some(Response::ConfigOk { .. })
    ));
    assert!(state.answer_from_memory(&Request::ReloadConfig, ctx, None).is_none());
}

#[test]
fn entries_keep_the_spelling_of_their_paths() {
    let mut state = test_state();
    state.register_workspace("ws-1".to_string(), "/a//b/".to_string(), index("/a/b"));
    state.register_workspace("ws-2".to_string(), "/old".to_string(), index("/old"));
    state.register_workspace("ws-2".to_string(), "/new/./x".to_string(), index("/new/x"));
    let mut entries: Vec<(String, String)> = state
        .registry
        .collect_workspace_entries()
        .into_iter()
        .map(|e| (e.ws_id, e.workspace_path))
        .collect();
    entries.sort();
    assert_eq!(
        entries,
        [
            ("ws-1".to_string(), "/a//b/".to_string()),
            ("ws-2".to_string(), "/new/./x".to_string()),
            ("ws-2".to_string(), "/old".to_string()),
        ]
    );
    for spelling in ["/a/b", "//a/b", "/a/./b/"] {
        assert_eq!(state.get_by_path(spelling).unwrap().ws_id, "ws-1");
    }
    for other in ["a/b", "/a/../a/b", "/a/bb", "/a"] {
        assert!(state.get_by_path(other).is_none());
    }
}

#[test]
fn paths_keep_their_first_spelling() {
    let mut state = test_state();
    let listed = |state: &DaemonState| {
        let mut paths: Vec<String> = state
            .registry
            .collect_workspace_entries()
            .into_iter()
            .map(|e| e.workspace_path)
            .collect();
        paths.sort();
        paths
    };
    state.register_workspace("ws-1".to_string(), "/a//b".to_string(), index("/a/b"));
    state.register_workspace("ws-1".to_string(), "/a/b".to_string(), index("/a/b"));
    assert_eq!(listed(&state), ["/a//b"]);
    assert_eq!(state.get_by_wsid("ws-1").unwrap().path, "/a/b");
    state.register_workspace("ws-2".to_string(), "/a/./b".to_string(), index("/a/b"));
    assert_eq!(listed(&state), ["/a//b"]);
    assert_eq!(state.get_by_path("/a//b").unwrap().ws_id, "ws-2");
    state.register_workspace("ws-2".to_string(), "/c".to_string(), index("/c"));
    assert_eq!(listed(&state), ["/a//b", "/c"]);
    state.unregister_workspace("ws-1");
    assert_eq!(listed(&state), ["/c"]);
    state.register_workspace("ws-3".to_string(), "/a/b/".to_string(), index("/a/b"));
    assert_eq!(listed(&state), ["/a/b/", "/c"]);
}

fn reported_policy(r: Response) -> (WorkspacePolicy, bool) {
    match r {
        Response::WorkspacePolicyOk { local, effective, .. } => (local, effective.auto_cleanup),
        _ => panic!("expected a policy"),
    }
}

#[test]
fn policies_that_were_set_are_read_back() {
    let mut state = test_state();
    state.register_workspace("ws-p".to_string(), "/p".to_string(), index("/p"));
    state.register_workspace("ws-q".to_string(), "/q".to_string(), index("/q"));
    let policy = plan_patch(
        state.get_by_wsid("ws-p").unwrap(),
        PolicyFieldOp::SetTo(true),
        PolicyFieldOp::SetTo(CleanupRetention::Count(3)),
    )
    .ok()
    .unwrap();
    state.finish_patch("ws-p", policy, Ok(()));
    for (name, canonical) in [("ws-p", None), ("/p/", None), ("link", Some("/p"))] {
        let (local, on) = reported_policy(state.handle_get_workspace_policy(name, canonical));
        assert_eq!(local.auto_cleanup, Some(true));
        assert_eq!(local.auto_cleanup_keep, Some(CleanupRetention::Count(3)));
        assert!(on);
    }
    let (other, on) = reported_policy(state.handle_get_workspace_policy("ws-q", None));
    assert!(other.is_empty() && !on);

    state.reload_workspace_policy("ws-p", Err(WsCkptError::Io("denied".to_string())));
    assert_eq!(state.get_by_wsid("ws-p").unwrap().policy.auto_cleanup, Some(true));

    for _ in 0..2 {
        state.finish_reset("ws-p", Ok(()));
        let (local, on) = reported_policy(state.handle_get_workspace_policy("ws-p", None));
        assert!(local.is_empty() && !on);
    }
}
