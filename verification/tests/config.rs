use ws_ckpt::config::{
    config_report_to_global_json, default_backend_type, file_config_to_global_json,
    validate_file_config, BackendConfig, BackendType, BtrfsLoopConfig, DaemonConfig, FileConfig,
    GlobalUpdate, Percent, WsCkptError, CONFIG_FILE_PATH, DEFAULT_MOUNT_PATH,
    DEFAULT_SOCKET_PATH,
};
use ws_ckpt::render::flag_shown;
use ws_ckpt::retention::{CleanupRetention, RetentionJson};
use ws_ckpt::settings::{
    join_texts, report_update, unlanded_global_settings, ReloadReply,
};

fn percent(v: f64) -> Percent {
    Percent { bits: v.to_bits() }
}

fn img_config(img_size: Option<u64>, img_max_percent: Option<f64>) -> FileConfig {
    FileConfig {
        backend: BackendConfig {
            kind: "auto".to_string(),
            btrfs_loop: Some(BtrfsLoopConfig {
                img_size,
                img_max_percent: img_max_percent.map(percent),
            }),
        },
        ..FileConfig::default()
    }
}

fn unlanded(saved: &FileConfig, landed: &FileConfig) -> Vec<String> {
    unlanded_global_settings(saved, landed, ("75", "-"))
}

#[test]
fn daemon_config_default_values() {
    let cfg = DaemonConfig::default();
    assert_eq!(cfg.mount_path, DEFAULT_MOUNT_PATH);
    assert_eq!(cfg.socket_path, DEFAULT_SOCKET_PATH);
    assert_eq!(cfg.log_level, "info");
    assert_eq!(cfg.img_max_percent, percent(40.0));
    assert_eq!(cfg.min_free_percent, percent(1.0));
    assert_eq!(default_backend_type(), "auto");
}

#[test]
fn error_display_frame_too_large() {
    let err = WsCkptError::FrameTooLarge { size: 20_000_000, max: 16_777_216 };
    let msg = err.to_text();
    assert!(msg.contains("frame too large"));
    assert!(msg.contains("20000000"));
    assert!(msg.contains("16777216"));
}

#[test]
fn error_display_io() {
    let io_err = std::io::Error::new(std::io::ErrorKind::NotFound, "file missing");
    let msg = WsCkptError::Io(io_err.to_string()).to_text();
    assert!(msg.contains("io error"));
}

#[test]
fn error_display_json() {
    let json_err = serde_json::from_str::<serde_json::Value>("not json").unwrap_err();
    let msg = WsCkptError::Json(json_err.to_string()).to_text();
    assert!(msg.contains("json error"));
}

#[test]
fn error_display_bincode() {
    let bad_data = vec![0xFFu8, 0xFF, 0xFF];
    let bincode_err = bincode::deserialize::<String>(&bad_data).unwrap_err();
    let msg = WsCkptError::Bincode(bincode_err.to_string()).to_text();
    assert!(msg.contains("bincode error"));
}

#[test]
fn load_config_file_rejects_img_max_percent_out_of_range() {
    for bad in [-1.0, 100.5, f64::NAN, f64::INFINITY, -f64::NAN, -1.0e-300, 100.00000000000001] {
        let result = validate_file_config(&img_config(None, Some(bad)), "/f.toml", "shown");
        assert_eq!(
            result,
            Err(WsCkptError::Config(
                "backend.btrfs-loop.img_max_percent in /f.toml: expected a finite value in 0.0..=100.0 (got shown)"
                    .to_string()
            )),
            "{bad} should be rejected"
        );
    }
}

#[test]
fn load_config_file_accepts_img_max_percent_in_range() {
    for good in [0.0, 40.0, 100.0, -0.0, 5.0e-324] {
        let result = validate_file_config(&img_config(None, Some(good)), "/f.toml", "shown");
        assert!(result.is_ok(), "{good} should be accepted, got {result:?}");
    }
    assert!(validate_file_config(&FileConfig::default(), "/f.toml", "-").is_ok());
}

#[test]
fn percentages_compare_as_numbers() {
    let values = [0.0, -0.0, 1.0, 40.0, f64::NAN, -1.0, f64::INFINITY];
    for a in values {
        for b in values {
            assert_eq!(percent(a) == percent(b), a == b, "{a} {b}");
        }
    }
}

#[test]
fn backend_types_are_named() {
    let of = |s: &str| {
        DaemonConfig { backend_type: s.to_string(), ..DaemonConfig::default() }.parse_backend_type()
    };
    assert_eq!(of("btrfs-loop"), Some(BackendType::BtrfsLoop));
    assert_eq!(of("btrfs-base"), Some(BackendType::BtrfsBase));
    assert_eq!(of("auto"), None);
    assert_eq!(of("Btrfs-Loop"), None);
}

#[test]
fn startup_takes_the_file_over_the_defaults() {
    let file = FileConfig {
        auto_cleanup: Some(true),
        health_check_interval_secs: Some(42),
        ..img_config(Some(64), None)
    };
    let c = DaemonConfig::at_startup(
        "/m".to_string(),
        "/s.sock".to_string(),
        "debug".to_string(),
        &file,
    );
    assert_eq!((c.mount_path.as_str(), c.socket_path.as_str()), ("/m", "/s.sock"));
    assert_eq!(c.log_level, "debug");
    assert!(c.auto_cleanup);
    assert_eq!(c.auto_cleanup_keep, CleanupRetention::Count(20));
    assert_eq!(c.auto_cleanup_interval_secs, 86_400);
    assert_eq!(c.health_check_interval_secs, 42);
    assert_eq!(c.img_size, 64);
    assert_eq!(c.img_max_percent, percent(40.0));
}

#[test]
fn reloading_leaves_image_settings_and_paths() {
    let mut c = DaemonConfig::default();
    let file = FileConfig {
        auto_cleanup: Some(true),
        auto_cleanup_keep: Some(CleanupRetention::age("7d").unwrap()),
        ..img_config(Some(64), Some(75.0))
    };
    c.apply_global_config(&file);
    assert!(c.auto_cleanup);
    assert_eq!(c.auto_cleanup_keep, CleanupRetention::age("7d").unwrap());
    assert_eq!(c.img_size, 30);
    let report = c.report();
    assert_eq!(report.mount_path, DEFAULT_MOUNT_PATH);
    assert_eq!(report.img_max_percent, percent(40.0));
}

#[test]
fn updates_touch_what_they_mention() {
    let mut file = img_config(Some(10), Some(20.0));
    file.apply_update(GlobalUpdate {
        health_check_interval: Some(60),
        img_size: None,
        img_max_percent: Some(percent(50.0)),
        auto_cleanup: Some(false),
        auto_cleanup_keep: None,
        auto_cleanup_interval_secs: None,
    });
    assert_eq!(
        file,
        FileConfig {
            auto_cleanup: Some(false),
            health_check_interval_secs: Some(60),
            ..img_config(Some(10), Some(50.0))
        }
    );
    let mut fresh = FileConfig::default();
    fresh.apply_update(GlobalUpdate {
        health_check_interval: None,
        img_size: Some(5),
        img_max_percent: None,
        auto_cleanup: None,
        auto_cleanup_keep: None,
        auto_cleanup_interval_secs: None,
    });
    assert_eq!(fresh, img_config(Some(5), None));
}

#[test]
fn json_views_show_effective_values() {
    let j = file_config_to_global_json(&FileConfig::default());
    assert_eq!(j.schema, "ws-ckpt-config/v1");
    assert_eq!(j.config_file, CONFIG_FILE_PATH);
    assert_eq!(j.auto_cleanup_keep, RetentionJson::Count { count: 20 });
    assert!(j.auto_cleanup_is_disabled);
    assert_eq!(j.img_size_gb, 30);
    let mut c = DaemonConfig::default();
    c.auto_cleanup = true;
    c.auto_cleanup_keep = CleanupRetention::Count(0);
    let j = config_report_to_global_json(&c.report());
    assert!(j.auto_cleanup && j.auto_cleanup_is_disabled);
    assert_eq!(flag_shown(j.auto_cleanup), "true");
}

#[test]
fn no_unlanded_settings_when_daemon_reloaded_same_file() {
    let saved = FileConfig {
        auto_cleanup: Some(true),
        auto_cleanup_keep: Some(CleanupRetention::Count(3)),
        health_check_interval_secs: Some(30),
        ..FileConfig::default()
    };
    assert!(unlanded(&saved, &saved).is_empty());
}

#[test]
fn unlanded_settings_reported_when_daemon_never_saw_the_file() {
    let saved = FileConfig {
        auto_cleanup: Some(true),
        auto_cleanup_keep: Some(CleanupRetention::Count(3)),
        auto_cleanup_interval_secs: Some(600),
        health_check_interval_secs: Some(30),
        ..FileConfig::default()
    };
    let lines = unlanded(&saved, &FileConfig::default());
    assert_eq!(lines.len(), 4, "got: {lines:?}");
    assert!(lines[0].starts_with("auto-cleanup: file has true, daemon has unset"));
}

#[test]
fn img_only_write_is_reported_when_daemon_never_saw_the_file() {
    let saved = img_config(Some(64), Some(75.0));
    let lines = unlanded(&saved, &FileConfig::default());
    assert_eq!(lines.len(), 2, "got: {lines:?}");
    assert!(lines[0].starts_with("img-size: file has 64, daemon has unset"));
    assert_eq!(lines[1], "img-max-percent: file has 75, daemon has unset");
}

#[test]
fn img_write_the_daemon_read_is_not_reported() {
    let saved = img_config(Some(64), None);
    assert!(unlanded(&saved, &saved).is_empty());
}

#[test]
fn age_retention_compares_by_value() {
    let with = |age: &str| FileConfig {
        auto_cleanup_keep: Some(CleanupRetention::age(age).unwrap()),
        ..FileConfig::default()
    };
    let saved = with("30d");
    assert!(unlanded(&saved, &saved).is_empty());
    assert_eq!(unlanded(&saved, &with("7d")).len(), 1);
}

#[test]
fn a_difference_without_a_named_setting_is_reported() {
    assert_eq!(
        unlanded(&img_config(None, None), &FileConfig::default()),
        ["config file contents differ (unrecognized field)"]
    );
}

#[test]
fn updates_report_what_the_daemon_did() {
    let saved = FileConfig { auto_cleanup: Some(true), ..FileConfig::default() };
    let same = || FileConfig { auto_cleanup: Some(true), ..FileConfig::default() };
    let r = report_update(&saved, false, &ReloadReply::Reloaded { file: Some(same()) }, ("", ""));
    assert!(r.error.is_none());
    assert_eq!(
        r.status,
        [
            "\u{1b}[32m\u{2713} Configuration saved to /etc/ws-ckpt/config.toml\u{1b}[0m",
            "\u{1b}[32m\u{2713} Daemon reloaded configuration\u{1b}[0m",
        ]
    );
    let lost = ReloadReply::Reloaded { file: Some(FileConfig::default()) };
    let r = report_update(&saved, false, &lost, ("", ""));
    assert!(r.error.unwrap().starts_with(
        "daemon did not load the settings written to /etc/ws-ckpt/config.toml:\n  auto-cleanup: file has true, daemon has unset\n"
    ));
    let r = report_update(&saved, false, &ReloadReply::Refused("bad".to_string()), ("", ""));
    assert_eq!(r.error.as_deref(), Some("daemon reload failed: bad"));
    assert!(report_update(&saved, true, &ReloadReply::Unreachable, ("", "")).error.is_none());
    assert!(report_update(&saved, true, &ReloadReply::Other, ("", "")).error.is_none());
}

#[test]
fn texts_are_joined() {
    assert_eq!(join_texts(&vec![], ", "), "");
    assert_eq!(join_texts(&vec!["a".to_string()], ", "), "a");
    assert_eq!(join_texts(&vec!["a".to_string(), "b".to_string()], ", "), "a, b");
}
