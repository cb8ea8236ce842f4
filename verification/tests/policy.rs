use ws_ckpt::config::{DaemonConfig, WsCkptError};
use ws_ckpt::policy::{
    disabled_warning_for, load_workspace_policy_or_default, load_workspace_policy_with_failsafe,
    EffectivePolicy, GlobalPolicySnapshot, LoadPolicyOutcome, PolicyFieldOp, WorkspacePolicy,
    WorkspacePolicyJson,
};
use ws_ckpt::retention::{CleanupRetention, RetentionJson};

fn global_count(n: u32) -> DaemonConfig {
    DaemonConfig {
        auto_cleanup: true,
        auto_cleanup_keep: CleanupRetention::Count(n),
        ..DaemonConfig::default()
    }
}

#[test]
fn policy_field_op_apply_semantics() {
    assert_eq!(PolicyFieldOp::<bool>::Unchanged.apply(Some(true)), Some(true));
    assert_eq!(PolicyFieldOp::<bool>::Unchanged.apply(None), None);
    assert_eq!(PolicyFieldOp::<bool>::SetTo(false).apply(Some(true)), Some(false));
    assert_eq!(PolicyFieldOp::<bool>::SetTo(true).apply(None), Some(true));
}

#[test]
fn effective_for_local_some_overrides_global() {
    let global = global_count(20);
    let local = WorkspacePolicy {
        auto_cleanup: Some(false),
        auto_cleanup_keep: Some(CleanupRetention::Count(5)),
    };
    let eff = local.effective_for(&global);
    assert!(!eff.auto_cleanup);
    assert_eq!(eff.auto_cleanup_keep, CleanupRetention::Count(5));
}

#[test]
fn effective_for_local_none_inherits_global() {
    let global = global_count(20);
    let local = WorkspacePolicy::default();
    let eff = local.effective_for(&global);
    assert_eq!(eff.auto_cleanup, global.auto_cleanup);
    assert_eq!(eff.auto_cleanup_keep, global.auto_cleanup_keep);
}

#[test]
fn effective_for_local_partial_only_overrides_set_fields() {
    let global = global_count(20);
    let local = WorkspacePolicy {
        auto_cleanup: None,
        auto_cleanup_keep: Some(CleanupRetention::Count(7)),
    };
    let eff = local.effective_for(&global);
    assert_eq!(eff.auto_cleanup, global.auto_cleanup);
    assert_eq!(eff.auto_cleanup_keep, CleanupRetention::Count(7));
}

#[test]
fn effective_policy_is_disabled_propagates() {
    let global = global_count(20);
    let local = WorkspacePolicy {
        auto_cleanup: Some(false),
        auto_cleanup_keep: Some(CleanupRetention::Count(10)),
    };
    assert!(local.effective_for(&global).is_disabled());
    let local = WorkspacePolicy {
        auto_cleanup: Some(true),
        auto_cleanup_keep: Some(CleanupRetention::Count(0)),
    };
    assert!(local.effective_for(&global).is_disabled());
    let mut g_off = global_count(20);
    g_off.auto_cleanup = false;
    let local = WorkspacePolicy {
        auto_cleanup: Some(true),
        auto_cleanup_keep: None,
    };
    assert!(!local.effective_for(&g_off).is_disabled());
}

#[test]
fn policy_is_empty_only_without_fields() {
    assert!(WorkspacePolicy::default().is_empty());
    assert!(!WorkspacePolicy { auto_cleanup: Some(false), auto_cleanup_keep: None }.is_empty());
    let keep = Some(CleanupRetention::Count(1));
    assert!(!WorkspacePolicy { auto_cleanup: None, auto_cleanup_keep: keep }.is_empty());
}

#[test]
fn unreadable_policy_disables_cleanup_and_is_marked() {
    let (p, failsafe) =
        load_workspace_policy_with_failsafe(Err(WsCkptError::Io("denied".to_string())));
    assert!(failsafe);
    assert_eq!(p, WorkspacePolicy { auto_cleanup: Some(false), auto_cleanup_keep: None });
    assert!(p.effective_for(&global_count(20)).is_disabled());
    let (p, failsafe) = load_workspace_policy_with_failsafe(Ok(LoadPolicyOutcome::Missing));
    assert!(!failsafe && p.is_empty());
    let own = WorkspacePolicy { auto_cleanup: Some(true), auto_cleanup_keep: None };
    let (p, failsafe) =
        load_workspace_policy_with_failsafe(Ok(LoadPolicyOutcome::Loaded(own.clone())));
    assert!(!failsafe);
    assert_eq!(p, own);
}

#[test]
fn missing_policy_is_the_default_and_errors_stay() {
    assert_eq!(
        load_workspace_policy_or_default(Ok(LoadPolicyOutcome::Missing)),
        Ok(WorkspacePolicy::default())
    );
    let own = WorkspacePolicy { auto_cleanup: Some(true), auto_cleanup_keep: None };
    assert_eq!(
        load_workspace_policy_or_default(Ok(LoadPolicyOutcome::Loaded(own.clone()))),
        Ok(own)
    );
    assert_eq!(
        load_workspace_policy_or_default(Err(WsCkptError::Config("bad".to_string()))),
        Err(WsCkptError::Config("bad".to_string()))
    );
}

#[test]
fn patches_of_different_fields_accumulate_in_either_order() {
    let keep = || PolicyFieldOp::SetTo(CleanupRetention::Count(11));
    let base = WorkspacePolicy::default();
    let a = base
        .patch(PolicyFieldOp::SetTo(true), PolicyFieldOp::Unchanged)
        .patch(PolicyFieldOp::Unchanged, keep());
    let b = base
        .patch(PolicyFieldOp::Unchanged, keep())
        .patch(PolicyFieldOp::SetTo(true), PolicyFieldOp::Unchanged);
    assert_eq!(a, b);
    assert_eq!(a.auto_cleanup, Some(true));
    assert_eq!(a.auto_cleanup_keep, Some(CleanupRetention::Count(11)));
}

#[test]
fn workspace_policy_json_schema_is_versioned() {
    let effective = EffectivePolicy {
        auto_cleanup: true,
        auto_cleanup_keep: CleanupRetention::Count(5),
    };
    let local = WorkspacePolicy::default();
    let global = GlobalPolicySnapshot {
        auto_cleanup: true,
        auto_cleanup_keep: CleanupRetention::Count(20),
    };
    let json = WorkspacePolicyJson::from_views("ws-test".to_string(), &effective, &local, &global);
    assert_eq!(json.schema, "ws-ckpt-policy/v1");
    assert_eq!(json.effective.auto_cleanup_keep, RetentionJson::Count { count: 5 });
    assert!(!json.effective.is_disabled);
    assert_eq!(json.ws_id, "ws-test");
    assert_eq!(json.local.auto_cleanup_keep, None);
    assert_eq!(json.global.auto_cleanup_keep, RetentionJson::Count { count: 20 });
}

#[test]
fn workspace_policy_json_age_retention_emits_tagged_form() {
    let effective = EffectivePolicy {
        auto_cleanup: true,
        auto_cleanup_keep: CleanupRetention::age("30d").unwrap(),
    };
    let local = WorkspacePolicy::default();
    let global = GlobalPolicySnapshot {
        auto_cleanup: true,
        auto_cleanup_keep: CleanupRetention::Count(20),
    };
    let json = WorkspacePolicyJson::from_views("ws-test".to_string(), &effective, &local, &global);
    assert_eq!(
        json.effective.auto_cleanup_keep,
        RetentionJson::Age { raw: "30d".to_string(), secs: 2592000 }
    );
}

#[test]
fn workspace_policy_json_count_zero_is_disabled() {
    let effective = EffectivePolicy {
        auto_cleanup: true,
        auto_cleanup_keep: CleanupRetention::Count(0),
    };
    let local = WorkspacePolicy::default();
    let global = GlobalPolicySnapshot {
        auto_cleanup: true,
        auto_cleanup_keep: CleanupRetention::Count(0),
    };
    let json = WorkspacePolicyJson::from_views("ws-test".to_string(), &effective, &local, &global);
    assert_eq!(json.effective.auto_cleanup_keep, RetentionJson::Count { count: 0 });
    assert!(json.effective.is_disabled);
}

fn eff(cleanup: bool, keep: CleanupRetention) -> EffectivePolicy {
    EffectivePolicy { auto_cleanup: cleanup, auto_cleanup_keep: keep }
}

#[test]
fn warn_enable_only_when_global_keep_is_zero() {
    let e = eff(true, CleanupRetention::Count(0));
    let l = WorkspacePolicy::default();
    let msg = disabled_warning_for(true, false, &e, &l).expect("warning expected");
    assert!(msg.contains("global auto_cleanup_keep is 0"), "got: {}", msg);
}

#[test]
fn warn_enable_with_keep_zero_supplied() {
    let e = eff(true, CleanupRetention::Count(0));
    let l = WorkspacePolicy {
        auto_cleanup: Some(true),
        auto_cleanup_keep: Some(CleanupRetention::Count(0)),
    };
    let msg = disabled_warning_for(true, true, &e, &l).expect("warning expected");
    assert!(msg.contains("local auto_cleanup_keep is 0"), "got: {}", msg);
}

#[test]
fn warn_keep_only_when_global_cleanup_is_off() {
    let e = eff(false, CleanupRetention::Count(5));
    let l = WorkspacePolicy {
        auto_cleanup: None,
        auto_cleanup_keep: Some(CleanupRetention::Count(5)),
    };
    let msg = disabled_warning_for(false, true, &e, &l).expect("warning expected");
    assert!(msg.contains("global auto_cleanup is false"), "got: {}", msg);
}

#[test]
fn no_warn_when_effective_active() {
    let e = eff(true, CleanupRetention::Count(20));
    let l = WorkspacePolicy {
        auto_cleanup: Some(true),
        auto_cleanup_keep: Some(CleanupRetention::Count(20)),
    };
    assert!(disabled_warning_for(true, true, &e, &l).is_none());
}

#[test]
fn no_warn_when_user_supplied_nothing() {
    let e = eff(false, CleanupRetention::Count(0));
    let l = WorkspacePolicy::default();
    assert!(disabled_warning_for(false, false, &e, &l).is_none());
}

#[test]
fn warning_names_both_reasons() {
    let e = eff(false, CleanupRetention::Count(0));
    let l = WorkspacePolicy { auto_cleanup: Some(false), auto_cleanup_keep: None };
    assert_eq!(
        disabled_warning_for(false, true, &e, &l).unwrap(),
        "auto-cleanup is still effectively disabled \u{2014} local auto_cleanup is false (override with `--enable-auto-cleanup` on this command); global auto_cleanup_keep is 0 (pass `--auto-cleanup-keep <N>` here, or `ws-ckpt config -g --auto-cleanup-keep N`)."
    );
}
