use cunzhi::checkpoint::CommandOutcome;
use cunzhi::checkpoint_list::{
    checkpoint_from_commit, checkpoint_tool_result, commits_to_read, created_checkpoint,
    newest_first_order, read_checkpoint_header, registry_checkpoint, registry_entries_to_list,
    sort_checkpoints_newest_first, RegistryCheckpointEntry,
};
use cunzhi::checkpoint_restore::Checkpoint;
use cunzhi::checkpoint_run::CheckpointMetadata;

fn exited(success: bool, stdout: &str, stderr: &str) -> CommandOutcome {
    CommandOutcome::Exited { success, stdout: stdout.to_string(), stderr: stderr.to_string() }
}

fn entry(id: &str, commit: &str, message: &str, logged_at: &str) -> RegistryCheckpointEntry {
    RegistryCheckpointEntry {
        checkpoint_id: id.to_string(),
        checkpoint_commit: commit.to_string(),
        checkpoint_message: message.to_string(),
        logged_at: logged_at.to_string(),
    }
}

#[test]
fn registry_records_are_listed_newest_first_once_per_commit() {
    let entries = vec![
        entry("cp_1", "aaa", "first", "2026-01-01T00:00:00Z"),
        entry("cp_2", "bbb", "second", "2026-01-02T00:00:00Z"),
        entry("cp_3", "aaa", "again", "2026-01-03T00:00:00Z"),
    ];
    let listed = registry_entries_to_list(&entries);
    let commits: Vec<&str> = listed.iter().map(|e| e.checkpoint_commit.as_str()).collect();
    assert_eq!(commits, vec!["aaa", "bbb"]);
    assert_eq!(listed[0].checkpoint_id, "cp_3");
    let cp = registry_checkpoint(
        entries.into_iter().next().unwrap(),
        &exited(true, "a.rs\n b.rs \n", ""),
        (5, 0),
    );
    assert_eq!(cp.id, "aaa");
    assert_eq!(cp.checkpoint_id.as_deref(), Some("cp_1"));
    assert_eq!(cp.timestamp, (1767225600, 0));
    assert_eq!(cp.files, vec!["a.rs".to_string(), "b.rs".to_string()]);
    let undated = registry_checkpoint(entry("x", "c", "m", "not a time"), &exited(false, "", ""), (7, 8));
    assert_eq!(undated.timestamp, (7, 8));
    assert!(undated.files.is_empty());
}

#[test]
fn git_log_commits_are_read_once() {
    let log = exited(true, "aaa\nccc\n", "");
    let reflog = exited(true, "ccc\nddd\n\n", "");
    assert_eq!(
        commits_to_read(&log, &reflog, &vec!["aaa".to_string()]),
        vec!["ccc".to_string(), "ddd".to_string()]
    );
    assert!(commits_to_read(&exited(false, "x", ""), &CommandOutcome::SpawnFailed("e".to_string()), &vec![]).is_empty());
}

#[test]
fn checkpoint_commits_are_recognised() {
    let show = exited(
        true,
        "abc123\n2026-01-01T08:00:00+08:00\niterate-checkpoint: 2026-01-01T00:00:00Z\nbody line\ncheckpoint_id: cp_9\n",
        "",
    );
    let header = read_checkpoint_header(&show).unwrap();
    assert_eq!(header.full_hash, "abc123");
    assert_eq!(header.message, "body line\ncheckpoint_id: cp_9");
    let cp = checkpoint_from_commit(header, &exited(true, "f.txt\n", ""), (0, 0));
    assert_eq!(cp.checkpoint_id.as_deref(), Some("cp_9"));
    assert_eq!(cp.name, "iterate-checkpoint: 2026-01-01T00:00:00Z");
    assert_eq!(cp.message, cp.name);
    assert_eq!(cp.timestamp, (1767225600, 0));
    assert!(read_checkpoint_header(&exited(true, "abc\n2026\nplain commit\n", "")).is_none());
    assert!(read_checkpoint_header(&exited(true, "abc\n2026\n", "")).is_none());
    assert!(read_checkpoint_header(&exited(false, "", "")).is_none());
}

fn at(id: &str, secs: i64) -> Checkpoint {
    Checkpoint {
        id: id.to_string(),
        checkpoint_id: None,
        name: id.to_string(),
        timestamp: (secs, 0),
        files: vec![],
        message: id.to_string(),
    }
}

#[test]
fn checkpoints_are_sorted_newest_first_stably() {
    assert_eq!(newest_first_order(&vec![(1, 0), (3, 0), (2, 0), (3, 0)]), vec![1, 3, 2, 0]);
    let sorted = sort_checkpoints_newest_first(&vec![at("a", 1), at("b", 3), at("c", 3), at("d", 2)]);
    let ids: Vec<&str> = sorted.iter().map(|c| c.id.as_str()).collect();
    assert_eq!(ids, vec!["b", "c", "d", "a"]);
}

#[test]
fn the_checkpoint_tool_reports_what_was_made() {
    let meta = CheckpointMetadata {
        checkpoint_id: "cp_1".to_string(),
        commit_hash: "0123456789abcdef".to_string(),
        commit_subject: "iterate-checkpoint: now".to_string(),
        push_status: "skipped".to_string(),
    };
    let made = created_checkpoint(Some(meta), &exited(true, "x\n", ""), (1, 2));
    assert_eq!(
        checkpoint_tool_result(&made, "/p").unwrap(),
        "✅ 检查点已创建\n\n- 提交: `012345678`\n- 信息: iterate-checkpoint: now\n- 路径: /p"
    );
    let nothing = created_checkpoint(None, &exited(true, "", ""), (1, 2));
    assert_eq!(checkpoint_tool_result(&nothing, "/p").unwrap(), "ℹ️ 没有未提交的改动，无需创建检查点");
    assert_eq!(
        checkpoint_tool_result(&Err("boom".to_string()), "/p").unwrap_err(),
        "创建 checkpoint 失败: boom"
    );
}

#[test]
fn a_safety_checkpoint_keeps_its_run_metadata() {
    let meta = cunzhi::checkpoint_run::CheckpointMetadata {
        checkpoint_id: "cp_1".to_string(),
        commit_hash: "abc123".to_string(),
        commit_subject: "checkpoint: 恢复前 safety checkpoint".to_string(),
        push_status: "skipped".to_string(),
    };
    let failed = cunzhi::checkpoint::CommandOutcome::SpawnFailed("no git".to_string());
    let c = cunzhi::checkpoint_list::made_checkpoint(meta, &failed, (1_700_000_000, 5));
    assert_eq!(c.id, "abc123");
    assert_eq!(c.checkpoint_id.as_deref(), Some("cp_1"));
    assert_eq!(c.name, "checkpoint: 恢复前 safety checkpoint");
    assert_eq!(c.timestamp, (1_700_000_000, 5));
    assert!(c.files.is_empty());
}
