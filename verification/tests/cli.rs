use ws_ckpt::cli::{
    adapter_script, after_confirmation, check_snapshot_arg, check_workspace_arg, detection,
    generate_auto_id, init_precheck, is_yes, metadata_refusal, parse_output_format,
    patch_request, request_for, resolve_workspace_arg, runtime_dir, script_failure, script_missing, Command, ConfigArgs,
    ConfigPlan, Detection, OutputFormat, PluginRuntime,
};
use ws_ckpt::config::Percent;
use ws_ckpt::message::Request;
use ws_ckpt::policy::PolicyFieldOp;
use ws_ckpt::retention::CleanupRetention;
use ws_ckpt::snapshot::Timestamp;

#[test]
fn parse_rejects_empty_or_whitespace_workspace_on_every_subcommand() {
    for blank in ["", "   ", "\t"] {
        assert_eq!(
            check_workspace_arg(blank.to_string()),
            Err("workspace argument must not be empty or whitespace")
        );
    }
}

#[test]
fn parse_accepts_non_blank_workspace() {
    for w in ["ws-abc", "/foo", "  abc  "] {
        assert_eq!(check_workspace_arg(w.to_string()).unwrap(), w);
    }
}

#[test]
fn resolve_workspace_arg_passes_through_non_empty() {
    assert_eq!(resolve_workspace_arg("ws-abc123", Some("/cwd")), "ws-abc123");
    assert_eq!(resolve_workspace_arg("/abs/path", Some("/cwd")), "/abs/path");
    assert_eq!(resolve_workspace_arg("./rel", Some("/cwd")), "/cwd/./rel");
    assert_eq!(resolve_workspace_arg("a\\b", Some("/cwd")), "/cwd/a\\b");
    assert_eq!(resolve_workspace_arg("a/b", None), "a/b");
}

#[test]
fn parse_rejects_empty_or_whitespace_checkpoint_id() {
    for blank in ["", " ", "   ", "\t"] {
        assert_eq!(
            check_snapshot_arg(blank.to_string()),
            Err("snapshot id must not be empty or whitespace")
        );
    }
}

#[test]
fn parse_rejects_checkpoint_id_with_path_separators() {
    for bad in ["foo/bar", "..", ".", "a\\b", "/abs"] {
        assert_eq!(
            check_snapshot_arg(bad.to_string()),
            Err("snapshot id must not contain path separators or be '.'/'..'")
        );
    }
}

#[test]
fn parse_accepts_reasonable_checkpoint_ids() {
    for good in ["snap-1", "msg1-step2", "before-refactor", "v1.2.3"] {
        assert_eq!(check_snapshot_arg(good.to_string()).unwrap(), good);
    }
}

#[test]
fn generate_auto_id_matches_expected_format() {
    let now = Timestamp::new(1_719_100_800, 123_456_789).unwrap();
    let id = generate_auto_id(&now);
    assert!(id.starts_with("ckpt-"), "auto id should start with ckpt- prefix");
    assert_eq!(id.len(), "ckpt-YYYYMMDDTHHmmss.fff".len(), "auto id {id:?} has unexpected length");
    let body = &id[5..];
    assert!(
        body.chars().all(|c| c.is_ascii_digit() || c == 'T' || c == '.'),
        "auto id body {body:?} contains unexpected characters"
    );
    assert_eq!(id, "ckpt-20240623T000000.123");
}

fn checkpoint(metadata: Option<&str>, snapshot: Option<&str>, legacy: Option<&str>) -> Command {
    Command::Checkpoint {
        workspace: "/ws".to_string(),
        snapshot: snapshot.map(|s| s.to_string()),
        legacy_id: legacy.map(|s| s.to_string()),
        message: Some("m".to_string()),
        metadata: metadata.map(|s| s.to_string()),
    }
}

#[test]
fn metadata_valid_json_parses() {
    match request_for(checkpoint(Some(r#"{"key":"value"}"#), Some("snap-1"), None), None, "auto") {
        Ok(Request::Checkpoint { metadata, id, pin, .. }) => {
            let v: serde_json::Value = serde_json::from_str(&metadata.unwrap()).unwrap();
            assert_eq!(v["key"], "value");
            assert_eq!(id, "snap-1");
            assert!(!pin);
        }
        _ => panic!("expected Checkpoint"),
    }
}

#[test]
fn metadata_invalid_json_parsed_but_invalid() {
    let expected = serde_json::from_str::<serde_json::Value>("not-json").unwrap_err();
    match request_for(checkpoint(Some("not-json"), Some("snap-1"), None), None, "auto") {
        Err(e) => assert_eq!(e, format!("invalid JSON in --metadata: {expected}")),
        Ok(_) => panic!("invalid JSON should fail to parse"),
    }
    assert_eq!(metadata_refusal(&Ok("{}".to_string())), None);
}

#[test]
fn checkpoints_are_named_by_the_first_option_given() {
    let name = |snapshot, legacy| match request_for(checkpoint(None, snapshot, legacy), None, "auto") {
        Ok(Request::Checkpoint { id, .. }) => id,
        _ => panic!("expected Checkpoint"),
    };
    assert_eq!(name(Some("snap-1"), None), "snap-1");
    assert_eq!(name(None, Some("snap-3")), "snap-3");
    assert_eq!(name(None, None), "auto");
}

#[test]
fn rollback_missing_both_target_and_ancestors_parses_but_fields_none() {
    let roll = |to: Option<&str>, num_ancestors, preview| {
        let command = Command::Rollback {
            workspace: "ws".to_string(),
            to: to.map(|s| s.to_string()),
            num_ancestors,
            preview,
        };
        request_for(command, None, "auto")
    };
    assert_eq!(
        roll(None, None, false).err().as_deref(),
        Some("either --snapshot/-s or --num-ancestors/-n must be specified")
    );
    assert!(matches!(
        roll(Some("a"), None, false),
        Ok(Request::Rollback { to: Some(_), num_ancestors: None, .. })
    ));
    assert!(matches!(
        roll(None, Some(2), true),
        Ok(Request::RollbackPreview { to: None, num_ancestors: Some(2), .. })
    ));
}

#[test]
fn commands_send_resolved_workspaces() {
    let w = || Some("sub/dir".to_string());
    match request_for(Command::List { workspace: w(), format: "json".to_string() }, Some("/c"), "") {
        Ok(Request::List { workspace, format }) => {
            assert_eq!(workspace.as_deref(), Some("/c/sub/dir"));
            assert_eq!(format.as_deref(), Some("json"));
        }
        _ => panic!("expected List"),
    }
    match request_for(Command::Status { workspace: w(), format: "text".to_string() }, Some("/c"), "") {
        Ok(Request::Status { workspace }) => assert_eq!(workspace.as_deref(), Some("/c/sub/dir")),
        _ => panic!("expected Status"),
    }
    match request_for(Command::Cleanup { workspace: "ws-1".to_string(), keep: 7 }, Some("/c"), "") {
        Ok(Request::Cleanup { workspace, keep }) => {
            assert_eq!((workspace.as_str(), keep), ("ws-1", Some(7)));
        }
        _ => panic!("expected Cleanup"),
    }
    assert!(matches!(request_for(Command::Reload, None, ""), Ok(Request::ReloadConfig)));
}

#[test]
fn parse_config_format_defaults_to_text() {
    assert_eq!(parse_output_format("text").unwrap(), OutputFormat::Text);
}

#[test]
fn parse_config_format_json_accepted() {
    assert_eq!(parse_output_format("json").unwrap(), OutputFormat::Json);
}

#[test]
fn parse_output_format_rejects_typo() {
    assert!(parse_output_format("jso").is_err());
    assert!(parse_output_format("YAML").is_err());
    assert!(parse_output_format("").is_err());
    assert_eq!(
        parse_output_format("a\"b\n"),
        Err("unknown --format value: \"a\\\"b\\n\" (expected `text` or `json`)".to_string())
    );
}

fn config() -> ConfigArgs {
    ConfigArgs {
        global: false,
        workspace: None,
        reset: false,
        health_check_interval: None,
        img_size: None,
        img_max_percent: None,
        enable_auto_cleanup: false,
        disable_auto_cleanup: false,
        auto_cleanup_keep: None,
        auto_cleanup_interval: None,
    }
}

fn on(ws: &str) -> ConfigArgs {
    ConfigArgs { workspace: Some(ws.to_string()), ..config() }
}

#[test]
fn parse_config_no_scope_is_overview() {
    assert!(matches!(config().plan(), Ok(ConfigPlan::Overview)));
    let refused = ConfigArgs { img_size: Some(1), ..config() };
    assert_eq!(
        refused.plan().err().as_deref(),
        Some("specify -g (global) or -w <ws> (per-workspace) to make changes")
    );
}

#[test]
fn parse_config_global_with_all_flags() {
    let args = ConfigArgs {
        global: true,
        health_check_interval: Some(120),
        img_size: Some(30),
        img_max_percent: Some(Percent { bits: 40.0f64.to_bits() }),
        ..config()
    };
    match args.plan() {
        Ok(ConfigPlan::UpdateGlobal(u)) => {
            assert_eq!(u.health_check_interval, Some(120));
            assert_eq!(u.img_size, Some(30));
            assert_eq!(u.img_max_percent.map(|p| f64::from_bits(p.bits)), Some(40.0));
            assert!(u.has_img_settings());
        }
        _ => panic!("expected an update"),
    }
    let view = ConfigArgs { global: true, ..config() };
    assert!(matches!(view.plan(), Ok(ConfigPlan::ViewGlobal)));
    let reset = ConfigArgs { global: true, reset: true, ..config() };
    assert_eq!(
        reset.plan().err().as_deref(),
        Some("--reset is only valid with -w/--workspace")
    );
}

#[test]
fn parse_config_workspace_set_keep() {
    let args = ConfigArgs { auto_cleanup_keep: Some(CleanupRetention::Count(5)), ..on("/tmp/proj") };
    match args.plan() {
        Ok(ConfigPlan::UpdateWorkspace { workspace, auto_cleanup, auto_cleanup_keep }) => {
            assert_eq!(workspace, "/tmp/proj");
            assert_eq!(auto_cleanup_keep, Some(CleanupRetention::Count(5)));
            match patch_request(workspace, auto_cleanup, auto_cleanup_keep) {
                Request::PatchWorkspacePolicy { auto_cleanup, auto_cleanup_keep, .. } => {
                    assert_eq!(auto_cleanup, PolicyFieldOp::Unchanged);
                    assert_eq!(auto_cleanup_keep, PolicyFieldOp::SetTo(CleanupRetention::Count(5)));
                }
                _ => panic!("expected a patch"),
            }
        }
        _ => panic!("expected an update"),
    }
}

#[test]
fn parse_config_workspace_reset() {
    let args = ConfigArgs { reset: true, ..on("/tmp/proj") };
    match args.plan() {
        Ok(ConfigPlan::ResetWorkspace { workspace }) => assert_eq!(workspace, "/tmp/proj"),
        _ => panic!("expected a reset"),
    }
}

#[test]
fn parse_config_workspace_view() {
    match on("/tmp/proj").plan() {
        Ok(ConfigPlan::ViewWorkspace { workspace }) => assert_eq!(workspace, "/tmp/proj"),
        _ => panic!("expected a view"),
    }
}

#[test]
fn global_settings_are_refused_for_a_workspace() {
    let e = |a: ConfigArgs| a.plan().err().unwrap();
    assert!(e(ConfigArgs { auto_cleanup_interval: Some(1), ..on("w") }).contains("daemon-wide"));
    assert!(e(ConfigArgs { health_check_interval: Some(1), ..on("w") })
        .starts_with("--health-check-interval is global-only"));
    assert!(e(ConfigArgs { img_size: Some(1), ..on("w") }).starts_with("--img-size is global-only"));
    assert!(e(ConfigArgs { img_max_percent: Some(Percent { bits: 0 }), ..on("w") })
        .starts_with("--img-max-percent is global-only"));
}

#[test]
fn switches_ask_for_cleanup() {
    let of = |enable_auto_cleanup, disable_auto_cleanup| {
        let args = ConfigArgs { enable_auto_cleanup, disable_auto_cleanup, ..on("w") };
        match args.plan() {
            Ok(ConfigPlan::UpdateWorkspace { auto_cleanup, .. }) => auto_cleanup,
            _ => panic!("expected an update"),
        }
    };
    assert_eq!(of(true, false), Some(true));
    assert_eq!(of(false, true), Some(false));
}

#[test]
fn deletions_are_forced_once_confirmed() {
    let delete = Request::Delete {
        workspace: Some("/ws".to_string()),
        snapshot: "s".to_string(),
        force: false,
    };
    assert!(matches!(after_confirmation(&delete, "n\n"), Ok(None)));
    assert!(matches!(after_confirmation(&delete, "yes\n"), Ok(None)));
    match after_confirmation(&delete, " Y \n") {
        Ok(Some(Request::Delete { workspace, snapshot, force })) => {
            assert_eq!(workspace.as_deref(), Some("/ws"));
            assert_eq!(snapshot, "s");
            assert!(force);
        }
        _ => panic!("expected a forced deletion"),
    }
    assert_eq!(
        after_confirmation(&Request::Config, "y").err().as_deref(),
        Some("unexpected ConfirmationRequired for non-delete request")
    );
    assert!(is_yes("y\n") && !is_yes(""));
}

#[test]
fn absent_paths_are_not_sent() {
    assert_eq!(init_precheck("/x", true).as_deref(), Some("path does not exist: /x"));
    assert_eq!(init_precheck("/x", false), None);
}

#[test]
fn adapters_have_scripts() {
    assert_eq!(runtime_dir(PluginRuntime::Openclaw), "openclaw");
    assert_eq!(
        adapter_script(PluginRuntime::Hermes, "detect"),
        "/usr/share/anolisa/adapters/ws-ckpt/hermes/detect-hermes.sh"
    );
    let of = |code| detection(PluginRuntime::Hermes, code);
    assert_eq!(of(0), Detection::Installed("hermes plugin already installed".to_string()));
    assert_eq!(of(1), Detection::NotInstalled);
    assert_eq!(of(2), Detection::Refused("missing prerequisites for Hermes".to_string()));
    assert_eq!(of(-1), Detection::Refused("detect failed for Hermes (exit -1)".to_string()));
    assert_eq!(
        script_failure(false, PluginRuntime::Openclaw, 3),
        "uninstall failed for Openclaw (exit 3)"
    );
    assert_eq!(script_missing("/x"), "cannot find /x; is ws-ckpt installed?");
}

#[test]
fn parse_rejects_empty_or_whitespace_snapshot_args() {
    for blank in ["", " ", "   ", "\t"] {
        assert_eq!(
            check_snapshot_arg(blank.to_string()),
            Err("snapshot id must not be empty or whitespace"),
            "blank {:?}",
            blank
        );
    }
}

#[test]
fn parse_rejects_path_traversal_snapshot_args() {
    for bad in ["foo/bar", "..", ".", "a\\b", "/abs"] {
        assert_eq!(
            check_snapshot_arg(bad.to_string()),
            Err("snapshot id must not contain path separators or be '.'/'..'"),
            "value {:?}",
            bad
        );
    }
}
