use cunzhi::checkpoint::{
    build_checkpoint_message, build_checkpoint_subject, checkpoint_commit_paths,
    checkpoint_files_from_show, checkpoint_id_from, delete_checkpoint, ensure_git_repo,
    filter_checkpoint_relevant_status, filter_monitor_relevant_status, get_checkpoint_files,
    has_uncommitted_changes, index_lock_failure, index_lock_retry, is_checkpoint_index_path,
    is_gitlink_path, is_valid_relative_checkpoint_path, parse_checkpoint_id, restore_checkpoint,
    restore_plan_id, CommandOutcome, LockRetry, RepoProbe,
};
use cunzhi::checkpoint_monitor::{
    evaluate_monitor_cycle, git_status_porcelain, monitor_debounce_window, monitor_poll_interval,
    touch_auto_checkpoint_monitor, AutoCheckpointMonitor, MonitorEntry,
};
use cunzhi::checkpoint_run::{
    auto_create_checkpoint, create_named_checkpoint, CheckpointAction, CheckpointRun,
    CheckpointStage, CheckpointStamp, GitRequest,
};

fn ran(success: bool, stdout: &str, stderr: &str) -> CommandOutcome {
    CommandOutcome::Exited {
        success,
        stdout: stdout.to_string(),
        stderr: stderr.to_string(),
    }
}

fn stamp() -> CheckpointStamp {
    CheckpointStamp {
        timestamp: "2026-04-09T00:00:00Z".to_string(),
        local_time: "08:00:00".to_string(),
        checkpoint_id: "cp_20260409000000_abcdef12".to_string(),
    }
}

#[test]
fn filter_checkpoint_status_ignores_generated_registry_files() {
    let raw = " M .cunzhi-knowledge\n M .cunzhi-memory/checkpoints.jsonl\n";
    assert_eq!(filter_checkpoint_relevant_status(raw), "");
}

#[test]
fn filter_checkpoint_status_ignores_untracked_generated_paths() {
    let raw = "?? .cunzhi-knowledge/conversations/log.md\n?? .cunzhi-memory/checkpoints.jsonl\n?? .cunzhi-memory/checkpoint_links.jsonl\n?? .cunzhi-memory/app-workflow-runs/run/status.json\n";
    assert_eq!(filter_checkpoint_relevant_status(raw), "");
}

#[test]
fn filter_checkpoint_status_keeps_real_workspace_changes() {
    let raw = " M .cunzhi-memory/checkpoints.jsonl\nM  src/main.rs\n";
    assert_eq!(filter_checkpoint_relevant_status(raw), "M  src/main.rs");
}

#[test]
fn monitor_ignores_knowledge_only_changes() {
    let raw = " M .cunzhi-knowledge\n";
    assert_eq!(filter_monitor_relevant_status(raw), "");
}

#[test]
fn monitor_ignores_registry_only_changes() {
    let raw = " M .cunzhi-memory/checkpoints.jsonl\n";
    assert_eq!(filter_monitor_relevant_status(raw), "");
}

#[test]
fn monitor_ignores_untracked_generated_paths() {
    let raw = "?? .cunzhi-knowledge/conversations/log.md\n?? .cunzhi-memory/checkpoints.jsonl\n?? .cunzhi-memory/checkpoint_links.jsonl\n?? .cunzhi-memory/app-workflow-runs/run/status.json\n";
    assert_eq!(filter_monitor_relevant_status(raw), "");
}

#[test]
fn monitor_keeps_non_knowledge_changes() {
    let raw = " M .cunzhi-knowledge\n M .cunzhi-memory/checkpoints.jsonl\nM  src/main.rs\n";
    assert_eq!(filter_monitor_relevant_status(raw), "M  src/main.rs");
}

#[test]
fn restore_checkpoint_rejects_direct_execution() {
    let error = restore_checkpoint("/tmp/demo", "abc123").unwrap_err();
    assert!(error.contains("请先执行恢复预览"));
}

#[test]
fn delete_checkpoint_is_refused() {
    assert_eq!(
        delete_checkpoint("/tmp/demo", "abc123").unwrap_err(),
        "Git 型 checkpoint 不支持直接删除"
    );
}

#[test]
fn index_paths_are_the_generated_directories() {
    assert!(is_checkpoint_index_path(".cunzhi-knowledge"));
    assert!(is_checkpoint_index_path(".cunzhi-memory/checkpoints.jsonl"));
    assert!(!is_checkpoint_index_path(".cunzhi-knowledge-other"));
    assert!(!is_checkpoint_index_path("src/.cunzhi-memory"));
}

#[test]
fn status_lines_keep_their_leading_columns_and_lose_trailing_space() {
    assert_eq!(
        filter_checkpoint_relevant_status("?? new file.txt  \r\n\n M a.rs\n"),
        "?? new file.txt\n M a.rs"
    );
}

#[test]
fn subject_uses_the_label_or_the_local_time() {
    assert_eq!(
        build_checkpoint_subject("2026-04-09T00:00:00Z", Some("  手动检查点 "), "08:00:00"),
        "iterate-checkpoint:2026-04-09T00:00:00Z | 手动检查点"
    );
    assert_eq!(
        build_checkpoint_subject("2026-04-09T00:00:00Z", Some("   "), "08:00:00"),
        "iterate-checkpoint:2026-04-09T00:00:00Z | 自动检查点 08:00:00"
    );
    assert_eq!(
        build_checkpoint_subject("2026-04-09T00:00:00Z", None, "08:00:00"),
        "iterate-checkpoint:2026-04-09T00:00:00Z | 自动检查点 08:00:00"
    );
}

#[test]
fn message_carries_the_checkpoint_and_turn() {
    assert_eq!(
        build_checkpoint_message("subj", "cp_1", Some(" req_test ")),
        "subj\n\ncheckpoint_id: cp_1\nturn_id: req_test"
    );
    assert_eq!(
        build_checkpoint_message("subj", "cp_1", None),
        "subj\n\ncheckpoint_id: cp_1"
    );
}

#[test]
fn checkpoint_id_takes_eight_uuid_digits() {
    assert_eq!(
        checkpoint_id_from("20260409000000", "0123456789abcdef0123456789abcdef"),
        "cp_20260409000000_01234567"
    );
}

#[test]
fn fresh_stamps_have_checkpoint_ids() {
    let s = CheckpointStamp::now();
    assert!(s.checkpoint_id.starts_with("cp_"));
    assert_eq!(s.checkpoint_id.len(), "cp_20260409000000_01234567".len());
    assert!(s.timestamp.ends_with('Z'));
}

#[test]
fn commit_paths_exclude_generated_directories() {
    assert_eq!(
        checkpoint_commit_paths(false, false),
        vec![
            ".".to_string(),
            ":(exclude).cunzhi-knowledge".to_string(),
            ":(exclude).cunzhi-knowledge/**".to_string(),
            ":(exclude).cunzhi-memory".to_string(),
            ":(exclude).cunzhi-memory/**".to_string(),
        ]
    );
    let paths = checkpoint_commit_paths(true, false);
    assert!(paths.iter().any(|p| p == ":(exclude).cunzhi-knowledge"));
    assert!(!paths.iter().any(|p| p == ":(exclude).cunzhi-knowledge/**"));
}

#[test]
fn gitlink_is_read_from_the_stage_listing() {
    assert!(is_gitlink_path(&ran(
        true,
        "160000 0123456789abcdef 0\t.cunzhi-knowledge\n",
        ""
    )));
    assert!(!is_gitlink_path(&ran(
        true,
        "100644 0123456789abcdef 0\t.cunzhi-knowledge\n",
        ""
    )));
    assert!(!is_gitlink_path(&ran(false, "160000 x\n", "")));
    assert!(!is_gitlink_path(&CommandOutcome::SpawnFailed("no git".to_string())));
}

#[test]
fn locked_index_is_retried_then_reported() {
    let locked = ran(false, "", "fatal: Unable to create '/r/.git/index.lock': File exists.");
    assert!(matches!(index_lock_retry("git add", 0, &locked), LockRetry::RetryAfter(150)));
    assert!(matches!(index_lock_retry("git add", 1, &locked), LockRetry::RetryAfter(500)));
    assert!(matches!(index_lock_retry("git add", 2, &locked), LockRetry::RetryAfter(1000)));
    match index_lock_retry("git add", 3, &locked) {
        LockRetry::Fail(m) => {
            assert!(m.contains("Git index 被锁定"));
            assert!(m.contains(".git/index.lock"));
            assert!(m.starts_with("git add 失败"));
        }
        other => panic!("unexpected {other:?}"),
    }
    assert!(matches!(
        index_lock_retry("git add", 0, &ran(false, "", "other error")),
        LockRetry::Accept
    ));
    match index_lock_retry("git add", 0, &CommandOutcome::SpawnFailed("boom".to_string())) {
        LockRetry::Fail(m) => assert_eq!(m, "执行 git add 失败: boom"),
        other => panic!("unexpected {other:?}"),
    }
    assert!(index_lock_failure("git commit", "  x  ").ends_with("原始错误: x"));
}

fn step(run: &mut CheckpointRun, outcome: CommandOutcome) -> CheckpointAction {
    run.step(&outcome)
}

#[test]
fn a_dirty_workspace_gets_a_pushed_checkpoint() {
    let (mut run, action) = auto_create_checkpoint(true, Some("req_test"), &stamp());
    assert!(matches!(action, CheckpointAction::Run(GitRequest::Status)));
    let a = step(&mut run, ran(true, " M demo.txt\n", ""));
    assert!(matches!(a, CheckpointAction::Run(GitRequest::StageOf(ref p)) if p == ".cunzhi-knowledge"));
    let a = step(&mut run, ran(true, "", ""));
    assert!(matches!(a, CheckpointAction::Run(GitRequest::StageOf(ref p)) if p == ".cunzhi-memory"));
    let a = step(&mut run, ran(true, "", ""));
    match a {
        CheckpointAction::Run(GitRequest::Add(specs)) => assert_eq!(specs.len(), 5),
        other => panic!("unexpected {other:?}"),
    }
    let a = step(&mut run, ran(true, "", ""));
    match a {
        CheckpointAction::Run(GitRequest::Commit(message, _)) => {
            assert!(message.starts_with("iterate-checkpoint:2026-04-09T00:00:00Z | 自动检查点 08:00:00\n\n"));
            assert!(message.contains("checkpoint_id: cp_20260409000000_abcdef12"));
            assert!(message.contains("turn_id: req_test"));
        }
        other => panic!("unexpected {other:?}"),
    }
    let a = step(&mut run, ran(true, "", ""));
    assert!(matches!(a, CheckpointAction::Run(GitRequest::RevParseHead)));
    let a = step(&mut run, ran(true, "abc123\n", ""));
    assert!(matches!(a, CheckpointAction::Run(GitRequest::RemoteUrl)));
    let a = step(&mut run, ran(true, "git@example.com:x.git\n", ""));
    assert!(matches!(a, CheckpointAction::Run(GitRequest::PushHead)));
    match step(&mut run, ran(true, "", "")) {
        CheckpointAction::Finish(Ok(Some(meta))) => {
            assert_eq!(meta.commit_hash, "abc123");
            assert_eq!(meta.push_status, "pushed");
            assert_eq!(meta.checkpoint_id, "cp_20260409000000_abcdef12");
            assert!(meta.commit_subject.contains("iterate-checkpoint:"));
        }
        other => panic!("unexpected {other:?}"),
    }
    assert_eq!(run.stage, CheckpointStage::Done);
}

#[test]
fn a_dirty_run_commits_once_and_a_second_run_commits_nothing() {
    let (mut run, _) = auto_create_checkpoint(true, Some("  req_test  "), &stamp());
    let _ = step(&mut run, ran(true, " M demo.txt\n", ""));
    let _ = step(&mut run, ran(true, "", ""));
    let _ = step(&mut run, ran(true, "", ""));
    let mut commits = Vec::new();
    if let CheckpointAction::Run(GitRequest::Commit(m, _)) = step(&mut run, ran(true, "", "")) {
        commits.push(m);
    }
    let locked = ran(false, "", "fatal: '.git/index.lock': File exists");
    if let CheckpointAction::SleepThenRun(_, GitRequest::Commit(m, _)) = step(&mut run, locked) {
        commits.push(m);
    }
    assert!(matches!(step(&mut run, ran(true, "", "")), CheckpointAction::Run(GitRequest::RevParseHead)));
    let _ = step(&mut run, ran(true, "abc123\n", ""));
    let meta = match step(&mut run, ran(false, "", "error: No such remote 'origin'")) {
        CheckpointAction::Finish(Ok(Some(meta))) => meta,
        other => panic!("unexpected {other:?}"),
    };
    assert_eq!(meta.push_status, "not_configured");
    assert_eq!(meta.commit_subject, "iterate-checkpoint:2026-04-09T00:00:00Z | 自动检查点 08:00:00");
    assert_eq!(commits.len(), 2);
    let expected = "iterate-checkpoint:2026-04-09T00:00:00Z | 自动检查点 08:00:00\n\ncheckpoint_id: cp_20260409000000_abcdef12\nturn_id: req_test";
    assert!(commits.iter().all(|m| m == expected));
    assert_eq!(parse_checkpoint_id(expected), Some("cp_20260409000000_abcdef12".to_string()));

    let (mut second, _) = auto_create_checkpoint(true, None, &stamp());
    assert!(matches!(step(&mut second, ran(true, "", "")), CheckpointAction::Finish(Ok(None))));
    assert_eq!(second.stage, CheckpointStage::Done);
}

#[test]
fn a_clean_or_generated_only_workspace_gets_no_checkpoint() {
    let (mut run, _) = auto_create_checkpoint(true, None, &stamp());
    assert!(matches!(
        step(&mut run, ran(true, "?? .cunzhi-memory/checkpoints.jsonl\n", "")),
        CheckpointAction::Finish(Ok(None))
    ));
    let (_, action) = auto_create_checkpoint(false, None, &stamp());
    assert!(matches!(action, CheckpointAction::Finish(Ok(None))));
}

#[test]
fn a_named_checkpoint_without_a_remote_is_not_pushed() {
    let (mut run, _) = create_named_checkpoint(true, "手动检查点", None, &stamp());
    assert!(run.subject.contains("手动检查点"));
    for _ in 0..4 {
        let _ = step(&mut run, ran(true, " M a\n", ""));
    }
    let _ = step(&mut run, ran(true, "", ""));
    let _ = step(&mut run, ran(true, "f00d\n", ""));
    match step(&mut run, ran(false, "", "error: No such remote 'origin'")) {
        CheckpointAction::Finish(Ok(Some(meta))) => {
            assert_eq!(meta.push_status, "not_configured");
            assert_eq!(meta.commit_hash, "f00d");
        }
        other => panic!("unexpected {other:?}"),
    }
}

#[test]
fn a_locked_index_fails_the_run_after_three_retries() {
    let (mut run, _) = auto_create_checkpoint(true, Some("req_lock"), &stamp());
    let _ = step(&mut run, ran(true, " M a\n", ""));
    let _ = step(&mut run, ran(true, "", ""));
    let _ = step(&mut run, ran(true, "", ""));
    let locked = || ran(false, "", "fatal: '.git/index.lock': File exists");
    assert!(matches!(step(&mut run, locked()), CheckpointAction::SleepThenRun(150, GitRequest::Add(_))));
    assert!(matches!(step(&mut run, locked()), CheckpointAction::SleepThenRun(500, GitRequest::Add(_))));
    assert!(matches!(step(&mut run, locked()), CheckpointAction::SleepThenRun(1000, GitRequest::Add(_))));
    match step(&mut run, locked()) {
        CheckpointAction::Finish(Err(e)) => {
            assert!(e.contains("Git index 被锁定"));
            assert!(e.contains(".git/index.lock"));
        }
        other => panic!("unexpected {other:?}"),
    }
}

#[test]
fn a_failed_status_is_reported() {
    let (mut run, _) = auto_create_checkpoint(true, None, &stamp());
    match step(&mut run, CommandOutcome::SpawnFailed("no git".to_string())) {
        CheckpointAction::Finish(Err(e)) => assert_eq!(e, "执行 git status 失败: no git"),
        other => panic!("unexpected {other:?}"),
    }
}

#[test]
fn repository_errors_come_first() {
    assert_eq!(
        ensure_git_repo("/nowhere", RepoProbe::PathMissing).unwrap_err(),
        "项目路径不存在: /nowhere"
    );
    assert_eq!(
        ensure_git_repo("/tmp", RepoProbe::NotARepo).unwrap_err(),
        "不是 Git 仓库"
    );
    assert!(ensure_git_repo("/tmp", RepoProbe::Repo).is_ok());
    assert_eq!(
        get_checkpoint_files("/tmp", RepoProbe::NotARepo, &ran(true, "a\n", "")).unwrap_err(),
        "不是 Git 仓库"
    );
}

#[test]
fn checkpoint_files_are_the_listed_lines() {
    assert_eq!(
        get_checkpoint_files("/r", RepoProbe::Repo, &ran(true, "\n demo.txt \nsrc/a.rs\n\n", ""))
            .unwrap(),
        vec!["demo.txt".to_string(), "src/a.rs".to_string()]
    );
    assert_eq!(
        checkpoint_files_from_show(&ran(false, "", " bad object \n")).unwrap_err(),
        "获取 commit 文件列表失败: bad object"
    );
    assert_eq!(
        checkpoint_files_from_show(&CommandOutcome::SpawnFailed("e".to_string())).unwrap_err(),
        "获取 commit 文件列表失败: e"
    );
}

#[test]
fn uncommitted_changes_need_a_repository_and_output() {
    assert!(has_uncommitted_changes(RepoProbe::Repo, &ran(true, " M a\n", "")));
    assert!(!has_uncommitted_changes(RepoProbe::Repo, &ran(true, " \n", "")));
    assert!(!has_uncommitted_changes(RepoProbe::NotARepo, &ran(true, " M a\n", "")));
    assert!(!has_uncommitted_changes(
        RepoProbe::Repo,
        &CommandOutcome::SpawnFailed("x".to_string())
    ));
}

#[test]
fn checkpoint_id_is_read_from_the_message() {
    assert_eq!(
        parse_checkpoint_id("subject\n\n  checkpoint_id:  cp_1 \nturn_id: r"),
        Some("cp_1".to_string())
    );
    assert_eq!(
        parse_checkpoint_id("checkpoint_id:\ncheckpoint_id: cp_2"),
        Some("cp_2".to_string())
    );
    assert_eq!(parse_checkpoint_id("no id here"), None);
}

#[test]
fn restore_paths_stay_inside_the_project() {
    assert!(is_valid_relative_checkpoint_path("src/main.rs"));
    assert!(is_valid_relative_checkpoint_path("./a/b"));
    assert!(!is_valid_relative_checkpoint_path("/etc/passwd"));
    assert!(!is_valid_relative_checkpoint_path("a/../../b"));
    assert!(!is_valid_relative_checkpoint_path("   "));
    assert!(is_valid_relative_checkpoint_path("a/..b"));
}

#[test]
fn restore_plan_id_keeps_sixteen_digits() {
    assert_eq!(
        restore_plan_id("0123456789abcdef0123456789abcdef"),
        "rp_0123456789abcdef"
    );
    assert_eq!(restore_plan_id("abc"), "rp_abc");
}

#[test]
fn monitor_settings_fall_back_to_defaults() {
    assert_eq!(monitor_poll_interval(None), 2000);
    assert_eq!(monitor_poll_interval(Some("250")), 250);
    assert_eq!(monitor_poll_interval(Some("x")), 2000);
    assert_eq!(monitor_debounce_window(Some("+10")), 10);
    assert_eq!(monitor_debounce_window(None), 5000);
}

#[test]
fn touching_a_workspace_watches_it_once() {
    let mut monitor = AutoCheckpointMonitor::new();
    assert!(touch_auto_checkpoint_monitor(&mut monitor, "/repo", Some(" req_1 "), true, 10));
    assert!(!touch_auto_checkpoint_monitor(&mut monitor, "/repo", None, true, 20));
    assert_eq!(monitor.entries.len(), 1);
    assert_eq!(monitor.entries[0].last_seen_at, 20);
    assert_eq!(monitor.entries[0].last_request_id.as_deref(), Some("req_1"));
    assert!(!touch_auto_checkpoint_monitor(&mut monitor, "  ", None, true, 30));
    assert!(!touch_auto_checkpoint_monitor(&mut monitor, "/other", None, false, 30));
    assert_eq!(monitor.entries.len(), 1);
    monitor.prune(20 + 1_800_001, 1_800_000);
    assert_eq!(monitor.entries.len(), 0);
}

#[test]
fn a_stable_change_is_saved_once() {
    let mut entry = MonitorEntry {
        project_path: "/repo".to_string(),
        last_status: String::new(),
        last_change_at: 0,
        last_seen_at: 0,
        last_request_id: Some("req_monitor".to_string()),
    };
    assert_eq!(evaluate_monitor_cycle(&mut entry, Some(" M a"), 100, 0), None);
    assert_eq!(entry.last_status, " M a");
    assert_eq!(
        evaluate_monitor_cycle(&mut entry, Some(" M a"), 200, 0),
        Some(Some("req_monitor".to_string()))
    );
    assert_eq!(entry.last_status, "");
    assert_eq!(evaluate_monitor_cycle(&mut entry, Some(" M a"), 300, 0), None);
    assert_eq!(evaluate_monitor_cycle(&mut entry, None, 400, 0), None);
}

#[test]
fn a_change_waits_for_the_debounce_window() {
    let mut entry = MonitorEntry {
        project_path: "/repo".to_string(),
        last_status: " M a".to_string(),
        last_change_at: 1000,
        last_seen_at: 0,
        last_request_id: None,
    };
    assert_eq!(evaluate_monitor_cycle(&mut entry, Some(" M a"), 5999, 5000), None);
    assert_eq!(evaluate_monitor_cycle(&mut entry, Some(" M a"), 6000, 5000), Some(None));
}

#[test]
fn monitor_status_needs_a_successful_git() {
    assert_eq!(
        git_status_porcelain(&ran(true, " M .cunzhi-knowledge\nM  b\n", "")),
        Some("M  b".to_string())
    );
    assert_eq!(git_status_porcelain(&ran(false, "M  b\n", "")), None);
}

#[test]
fn a_monitor_checkpoint_is_logged_with_its_request() {
    let checkpoint = cunzhi::checkpoint_run::CheckpointMetadata {
        checkpoint_id: "cp_20240101000000_abcd1234".to_string(),
        commit_hash: "deadbeef".to_string(),
        commit_subject: "checkpoint: 00:00:00".to_string(),
        push_status: "skipped".to_string(),
    };
    let entry = cunzhi::checkpoint_monitor::monitor_checkpoint_entry(
        "/Users/me/proj",
        Some("req-7"),
        &checkpoint,
    );
    assert_eq!(entry.ai_message, "后台自动检查点：检测到稳定改动，已创建工作区 checkpoint。");
    assert_eq!(entry.user_response, "");
    assert_eq!(entry.project_path.as_deref(), Some("/Users/me/proj"));
    assert_eq!(entry.request_id.as_deref(), Some("req-7"));
    assert_eq!(entry.checkpoint_commit.as_deref(), Some("deadbeef"));
    assert_eq!(entry.response_source.as_deref(), Some("checkpoint_monitor"));
    assert_eq!(entry.workspace_checkpoint_message.as_deref(), Some("checkpoint: 00:00:00"));
    assert_eq!(entry.image_count, 0);
}

#[test]
fn a_checkpoint_message_gives_back_its_id() {
    let message = build_checkpoint_message(
        "checkpoint: 2024-01-01T00:00:00Z 自动检查点 08:00:00",
        "cp_20240101000000_abcd1234",
        Some(" req-9 "),
    );
    assert_eq!(parse_checkpoint_id(&message).as_deref(), Some("cp_20240101000000_abcd1234"));
    let bare = build_checkpoint_message("checkpoint: x", "cp_1", None);
    assert_eq!(parse_checkpoint_id(&bare).as_deref(), Some("cp_1"));
}

#[test]
fn rollback_event_ids_take_eight_uuid_digits() {
    assert_eq!(
        cunzhi::checkpoint::rollback_event_id_from("20240102030405", "0123456789abcdef0123456789abcdef"),
        "rb_20240102030405_01234567"
    );
    let fresh = cunzhi::checkpoint_run::generate_rollback_event_id();
    assert!(fresh.starts_with("rb_"));
    assert_eq!(fresh.len(), 3 + 14 + 1 + 8);
}
