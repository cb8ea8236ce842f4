use ws_ckpt::config::{DaemonConfig, FileConfig};
use ws_ckpt::message::{
    ChangeType, DiffEntry, ErrorCode, Request, Response, StatusReport, WorkspaceInfo,
};
use ws_ckpt::policy::{EffectivePolicy, GlobalPolicySnapshot, WorkspacePolicy};
use ws_ckpt::recovery::{ask_batch, ask_single, recover_refusal, snapshot_count, Tally};
use ws_ckpt::render::{
    code_name, inherit_count, refusal_text, show_advisory, show_answer, show_cleanup, show_diff,
    show_failure, show_global_config, show_list, show_overview, show_policy, show_response,
    show_rollback_preview, show_status, stale_view_warning, Answer, Line, Next, Shown,
};
use ws_ckpt::retention::CleanupRetention;
use ws_ckpt::snapshot::{SnapshotEntry, SnapshotMeta, Timestamp};

fn texts(lines: &[Line]) -> Vec<&str> {
    lines.iter().map(|l| l.text.as_str()).collect()
}

fn error(code: ErrorCode, message: &str) -> Response {
    Response::Error { code, message: message.to_string() }
}

fn entry(id: &str, workspace: &str, missing: bool, message: Option<&str>) -> SnapshotEntry {
    SnapshotEntry {
        id: id.to_string(),
        workspace: workspace.to_string(),
        meta: SnapshotMeta {
            message: message.map(|s| s.to_string()),
            metadata: None,
            pinned: false,
            created_at: Timestamp::new(0, 0).unwrap(),
            missing,
            parent_id: None,
            child_ids: vec![],
        },
    }
}

fn info(path: &str, snapshot_count: u32) -> WorkspaceInfo {
    WorkspaceInfo { ws_id: "ws-1".to_string(), path: path.to_string(), snapshot_count }
}

#[test]
fn delete_ok_snapshot_shows_deleted_message() {
    let shown = show_response(&Response::DeleteOk { target: "msg1-step0".to_string() });
    assert_eq!(shown.next, Next::Done);
    assert_eq!(texts(&shown.lines), ["\u{1b}[32m\u{2713} Deleted: msg1-step0\u{1b}[0m"]);
}

#[test]
fn errors_fail_with_advice() {
    let s = show_response(&error(ErrorCode::SnapshotNotFound, "no s"));
    assert_eq!(s.next, Next::Fail);
    assert!(s.lines.iter().all(|l| l.to_stderr));
    assert_eq!(
        texts(&s.lines),
        [
            "\u{1b}[31m\u{2717} no s\u{1b}[0m",
            "  Use 'ws-ckpt list' to view available snapshots.",
        ]
    );
    let s = show_response(&error(ErrorCode::BtrfsError, "x"));
    assert_eq!(texts(&s.lines), ["\u{1b}[31mError [BtrfsError]: x\u{1b}[0m"]);
    let s = show_response(&error(ErrorCode::ConfirmationRequired, "sure?"));
    assert_eq!(s.next, Next::Confirm);
    assert_eq!(texts(&s.lines), ["\u{1b}[33m\u{26a0} sure?\u{1b}[0m"]);
    let s = show_response(&Response::ListOk { snapshots: vec![] });
    assert_eq!(texts(&s.lines), ["\u{1b}[33mUnexpected response type\u{1b}[0m"]);
    let s = show_failure(&error(ErrorCode::SnapshotNotFound, "no s"));
    assert_eq!(texts(&s.lines), ["\u{1b}[31mError [SnapshotNotFound]: no s\u{1b}[0m"]);
}

#[test]
fn codes_are_shown_by_name() {
    assert_eq!(code_name(ErrorCode::ListEntryTooLarge), format!("{:?}", ErrorCode::ListEntryTooLarge));
    assert_eq!(code_name(ErrorCode::CwdOccupied), format!("{:?}", ErrorCode::CwdOccupied));
    let text = refusal_text("reload", ErrorCode::IoError, "denied");
    assert!(text.contains("IoError") && text.contains("denied") && text.contains("reload"), "{text}");
}

#[test]
fn lists_are_tables() {
    let snapshots = vec![
        entry("s1", "/home/user/ws", false, Some("first")),
        entry("second", "/w", true, None),
    ];
    let dates = vec!["1970-01-01 00:00:00".to_string(), "1970-01-01 00:00:01".to_string()];
    let lines = show_list(&snapshots, &dates, 8 * 3600);
    assert_eq!(
        texts(&lines),
        [
            "WORKSPACE     SNAPSHOT         CREATED (UTC+8)     MESSAGE",
            &"-".repeat(13 + 16 + 19 + 10),
            "/home/user/ws s1               1970-01-01 00:00:00 first",
            "/w            second [MISSING] 1970-01-01 00:00:01 -",
            "\nTotal: 2 snapshot(s)",
        ]
    );
    assert_eq!(texts(&show_list(&vec![], &vec![], 0)), ["No snapshots found."]);
    let head = |offset| show_list(&vec![entry("a", "b", false, None)], &vec!["d".to_string()], offset)
        .remove(0)
        .text;
    assert!(head(-(3 * 3600 + 1800)).contains("(UTC-3:30)"));
    assert!(head(5 * 3600 + 300).contains("(UTC+5:05)"));
    assert!(head(0).contains("(UTC+0)"));
}

#[test]
fn diffs_mark_their_changes() {
    let change = |path: &str, change_type, detail: Option<&str>| DiffEntry {
        path: path.to_string(),
        change_type,
        detail: detail.map(|s| s.to_string()),
    };
    let changes = vec![
        change("a", ChangeType::Added, None),
        change("b", ChangeType::Renamed, Some("from c")),
    ];
    assert_eq!(
        texts(&show_diff(&changes)),
        [
            "\u{1b}[32m+  a\u{1b}[0m",
            "\u{1b}[36mR  b (from c)\u{1b}[0m",
            "\n2 change(s)",
        ]
    );
    assert_eq!(texts(&show_diff(&vec![])), ["No differences found."]);
    let preview = show_rollback_preview("snap", &changes);
    assert!(preview.iter().any(|l| l.text.contains("snap")));
    assert!(preview.iter().any(|l| l.text.contains("from c")));
}

#[test]
fn status_lists_workspaces() {
    let report = StatusReport {
        uptime_secs: 5,
        workspaces: vec![info("/w", 3)],
        fs_total_bytes: 0,
        fs_used_bytes: 0,
    };
    let lines = show_status(&report, "1.0 GB / 2.0 GB");
    assert_eq!(lines[1].text, "  Uptime: 5 seconds");
    assert_eq!(lines[2].text, "  Filesystem: 1.0 GB / 2.0 GB");
    assert_eq!(lines[6].text, format!("  {:<25} {:<40} 3", "ws-1", "/w"));
    assert_eq!(lines.last().unwrap().text, "\n  Total: 1 workspace(s)");
    let none = StatusReport { workspaces: vec![], ..report };
    assert_eq!(show_status(&none, "-").last().unwrap().text, "  No workspaces registered.");
}

#[test]
fn cleanups_name_what_they_removed() {
    assert_eq!(
        texts(&show_cleanup(&vec![])),
        ["\u{1b}[32m\u{2713} No snapshots needed cleanup.\u{1b}[0m"]
    );
    assert_eq!(
        texts(&show_cleanup(&vec!["a".to_string()])),
        ["\u{1b}[32m\u{2713} Cleaned up 1 snapshot(s):\u{1b}[0m", "  - a"]
    );
}

#[test]
fn policies_show_their_three_layers() {
    let lines = show_policy(
        "ws-1",
        &EffectivePolicy { auto_cleanup: true, auto_cleanup_keep: CleanupRetention::Count(5) },
        &WorkspacePolicy { auto_cleanup: None, auto_cleanup_keep: Some(CleanupRetention::Count(5)) },
        &GlobalPolicySnapshot {
            auto_cleanup: true,
            auto_cleanup_keep: CleanupRetention::age("7d").unwrap(),
        },
    );
    assert_eq!(
        lines[1].text,
        format!("  {:<22} effective={:<14} local={:<14} global=true", "auto_cleanup", "true", "(inherit)")
    );
    assert!(lines[2].text.starts_with("  auto_cleanup_keep      effective=5 "));
}

#[test]
fn configurations_mark_defaults() {
    let fc = FileConfig {
        health_check_interval_secs: Some(90),
        auto_cleanup_keep: Some(CleanupRetention::age("7d").unwrap()),
        ..FileConfig::default()
    };
    let lines = show_global_config(&fc, "40");
    let t = texts(&lines);
    assert_eq!(t[4], "  Auto-cleanup:            disabled (default)");
    assert_eq!(t[5], "  Auto-cleanup keep:       \"7d\" (age mode)");
    assert_eq!(t[6], "  Auto-cleanup interval:   86400s (1440m) (default)");
    assert_eq!(t[7], "  Health-check interval:   90s (1m)");
    assert_eq!(t[8], "  Image size:              30 GB (default)");
    assert_eq!(t[9], "  Image max percent:       40% (default)");
    let o = show_overview(&DaemonConfig::default().report(), 3, 1, "40");
    assert!(o.iter().any(|l| l.text == "  Inherit global:          2"));
    assert!(o.last().unwrap().text.contains("inspect a specific workspace"));
    assert_eq!(inherit_count(1, 3), 0);
}

#[test]
fn advisories_are_silent_without_cause() {
    assert!(show_advisory(0, &None).is_empty());
    let lines = show_advisory(2, &Some("disk is full".to_string()));
    assert!(lines.iter().all(|l| l.to_stderr));
    assert!(lines[1].text.contains("2 workspace(s) have more than 1000 snapshots"));
    assert_eq!(lines[2].text, "\u{1b}[33m\u{26a0} Warning: disk is full.\u{1b}[0m");
}

#[test]
fn stale_views_are_told() {
    assert!(stale_view_warning(&error(ErrorCode::InternalError, "gone")).is_some());
    let fresh = Response::ReloadConfigOk { config: DaemonConfig::default().report(), file: None };
    assert!(stale_view_warning(&fresh).is_none());
}

#[test]
fn recoveries_ask_first() {
    assert_eq!(
        recover_refusal(false, false),
        Some("either --workspace/-w or --all must be specified")
    );
    assert_eq!(recover_refusal(true, false), None);
    let lines = ask_batch(&vec![info("/a", 1), info("/b", 2)]);
    assert_eq!(lines[0], "Recovering 2 workspace(s):");
    assert_eq!(lines[2], "  /b (2 snapshots)");
    assert!(lines[3].starts_with("This will delete all snapshots"));
    assert_eq!(ask_single("/a", 4)[0], "Workspace: /a (4 snapshots)");
}

#[test]
fn recoveries_count_snapshots_and_failures() {
    let status = Response::StatusOk {
        report: StatusReport {
            uptime_secs: 0,
            workspaces: vec![info("/a", 9)],
            fs_total_bytes: 0,
            fs_used_bytes: 0,
        },
    };
    assert_eq!(snapshot_count(&status), Ok(9));
    assert_eq!(snapshot_count(&Response::InitOk { ws_id: "x".to_string() }), Ok(0));
    assert_eq!(snapshot_count(&error(ErrorCode::IoError, "x")).unwrap_err().next, Next::Fail);
    let mut tally = Tally::new(3);
    let ok = Response::RecoverOk { workspace: "/a".to_string() };
    assert_eq!(tally.count("/a", &ok), "Workspace recovered: /a");
    assert_eq!(tally.summary(), Ok("All workspaces recovered.".to_string()));
    assert_eq!(
        tally.count("/b", &error(ErrorCode::IoError, "busy")),
        "\u{1b}[31mError [IoError] recovering /b: busy\u{1b}[0m"
    );
    tally.count("/c", &status);
    assert_eq!(
        tally.summary(),
        Err("\u{1b}[31mRecover failed for 2/3 workspace(s); failed workspaces and their snapshots are preserved for retry.\u{1b}[0m".to_string())
    );
}

#[test]
fn answers_match_their_requests() {
    let w = || "w".to_string();
    let list = Request::List { workspace: None, format: None };
    let status = Request::Status { workspace: None };
    let diff = Request::Diff { workspace: w(), from: "a".to_string(), to: None };
    let preview = Request::RollbackPreview { workspace: w(), to: None, num_ancestors: Some(1) };
    let cleanup = Request::Cleanup { workspace: w(), keep: None };
    let snapshots = || vec![entry("s1", "/w", false, None)];
    let listed = Response::ListOk { snapshots: snapshots() };
    let report = || StatusReport {
        uptime_secs: 5,
        workspaces: vec![],
        fs_total_bytes: 0,
        fs_used_bytes: 0,
    };
    let reported = Response::StatusOk { report: report() };
    let changed = || vec![DiffEntry {
        path: "p".to_string(),
        change_type: ChangeType::Added,
        detail: None,
    }];
    let dates = vec!["d".to_string()];
    let answer = |q: &Request, r: &Response| show_answer(q, r, false, &dates, 3600, "usage");
    let done = |lines: Vec<Line>| Answer::Print(Shown { lines, next: Next::Done });

    assert_eq!(answer(&list, &listed), done(show_list(&snapshots(), &dates, 3600)));
    assert_eq!(answer(&status, &reported), done(show_status(&report(), "usage")));
    let none = vec![];
    assert_eq!(show_answer(&list, &listed, true, &none, 0, ""), Answer::Json);
    assert_eq!(show_answer(&status, &reported, true, &none, 0, ""), Answer::Json);
    let differs = Response::DiffOk { changes: changed() };
    assert_eq!(answer(&diff, &differs), done(show_diff(&changed())));
    let previewed = Response::RollbackPreviewOk { to: "t".to_string(), changes: changed() };
    assert_eq!(answer(&preview, &previewed), done(show_rollback_preview("t", &changed())));
    let removed = Response::CleanupOk { removed: vec!["a".to_string()] };
    assert_eq!(answer(&cleanup, &removed), done(show_cleanup(&vec!["a".to_string()])));

    for query in [&list, &status, &diff, &preview, &cleanup] {
        let missing = error(ErrorCode::WorkspaceNotFound, "no");
        assert_eq!(answer(query, &missing), Answer::Print(show_failure(&missing)));
        let other = Response::DeleteOk { target: "a".to_string() };
        assert_eq!(answer(query, &other), Answer::Print(show_failure(&other)));
    }
    let delete = Request::Delete { workspace: None, snapshot: "a".to_string(), force: false };
    let pinned = error(ErrorCode::ConfirmationRequired, "pinned");
    match answer(&delete, &pinned) {
        Answer::Print(shown) => assert_eq!(shown.next, Next::Confirm),
        _ => panic!("expected a question"),
    }
    assert_eq!(answer(&delete, &differs), Answer::Print(show_response(&differs)));
}

#[test]
fn reloads_end_the_command_when_they_fail() {
    let none = vec![];
    let answer = |r: &Response| show_answer(&Request::ReloadConfig, r, false, &none, 0, "");
    let config = DaemonConfig::default().report();
    match answer(&Response::ReloadConfigOk { config, file: None }) {
        Answer::Print(shown) => {
            assert_eq!(
                texts(&shown.lines),
                ["\u{1b}[32m\u{2713} Daemon reloaded configuration\u{1b}[0m"]
            );
            assert!(!shown.lines[0].to_stderr);
            assert_eq!(shown.next, Next::Done);
        }
        _ => panic!("expected success"),
    }
    assert_eq!(
        answer(&error(ErrorCode::InternalError, "bad")),
        Answer::Refuse("Daemon reload failed [InternalError]: bad".to_string())
    );
    assert_eq!(answer(&Response::DeleteOk { target: "a".to_string() }), Answer::Unexpected);
}
