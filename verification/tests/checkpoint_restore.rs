use cunzhi::checkpoint::CommandOutcome;
use cunzhi::checkpoint_restore::{
    check_expected_plan_hash, checkpoint_status_snapshot, creates_safety_checkpoint,
    git_head_hash, plan_restore, restore_checkout_result, restore_checkpoint_result,
    restore_diff_summary, restore_plan_fingerprint, restore_plan_hash, restore_probe_paths,
    restore_targets_or_error, selected_restore_targets, sha256_hex, RestoreFileChange,
    file_state_of, selected_file_state_snapshot, FileProbe,
};

fn exited(success: bool, stdout: &str, stderr: &str) -> CommandOutcome {
    CommandOutcome::Exited { success, stdout: stdout.to_string(), stderr: stderr.to_string() }
}

fn strings(items: &[&str]) -> Vec<String> {
    items.iter().map(|s| s.to_string()).collect()
}

#[test]
fn a_whole_checkpoint_is_restored_in_path_order() {
    let show = exited(true, "src/b.rs\n\nsrc/a.rs\n", "");
    let probe = restore_probe_paths(&strings(&["src/b.rs", "src/a.rs"]), None);
    assert_eq!(probe, strings(&["src/b.rs", "src/a.rs"]));
    let (changes, warnings) =
        selected_restore_targets(&show, None, &strings(&["src/a.rs"])).unwrap();
    assert!(warnings.is_empty());
    let paths: Vec<&str> = changes.iter().map(|c| c.path.as_str()).collect();
    assert_eq!(paths, vec!["src/a.rs", "src/b.rs"]);
    assert_eq!(changes[0].action, "restore");
    assert!(changes[0].exists_in_commit);
    assert_eq!(changes[1].action, "delete");
    assert!(!changes[1].exists_in_commit);
}

#[test]
fn a_selection_is_checked_against_the_checkpoint() {
    let show = exited(true, "a.txt\nb.txt\n", "");
    let selected = strings(&[" b.txt ", "", "../etc/passwd", "z.txt", "y.txt", "b.txt"]);
    let probe = restore_probe_paths(&strings(&["a.txt", "b.txt"]), Some(&selected));
    assert_eq!(probe, strings(&["a.txt", "b.txt", "b.txt", "z.txt", "y.txt", "b.txt"]));
    let (changes, warnings) =
        selected_restore_targets(&show, Some(&selected), &strings(&["b.txt", "y.txt"])).unwrap();
    let paths: Vec<&str> = changes.iter().map(|c| c.path.as_str()).collect();
    assert_eq!(paths, vec!["b.txt", "y.txt", "z.txt"]);
    assert_eq!(
        warnings,
        strings(&[
            "忽略非法文件路径: ../etc/passwd",
            "选中文件在目标提交中不存在，确认后将删除: z.txt",
            "选中文件不在 checkpoint 变更列表中，将按目标提交快照恢复: y.txt",
        ])
    );
}

#[test]
fn nothing_to_restore_is_an_error() {
    assert_eq!(
        selected_restore_targets(&exited(true, "\n", ""), None, &vec![]).unwrap_err(),
        "该 checkpoint 没有可恢复的文件"
    );
    assert_eq!(
        selected_restore_targets(&exited(false, "", " bad object \n"), None, &vec![]).unwrap_err(),
        "获取 commit 文件列表失败: bad object"
    );
    let empty = selected_restore_targets(&exited(true, "", ""), Some(&vec![]), &vec![]).unwrap();
    assert_eq!(restore_targets_or_error(Ok(empty)).unwrap_err(), "没有可恢复的文件");
}

fn change(path: &str, exists: bool) -> RestoreFileChange {
    RestoreFileChange {
        path: path.to_string(),
        action: if exists { "restore" } else { "delete" }.to_string(),
        exists_in_commit: exists,
    }
}

#[test]
fn the_plan_fingerprint_is_the_json_of_the_plan() {
    let targets = vec![change("a\"b", true), change("c", false)];
    let fingerprint = restore_plan_fingerprint(
        None,
        " M a",
        "abc",
        &targets,
        &strings(&["file:1", "absent"]),
        &strings(&["w"]),
    );
    assert_eq!(
        fingerprint,
        "{\"mode\":\"restore_snapshot\",\"head_before\":null,\"status_snapshot\":\" M a\",\"target_commit\":\"abc\",\"changed_files\":[{\"path\":\"a\\\"b\",\"action\":\"restore\",\"exists_in_commit\":true},{\"path\":\"c\",\"action\":\"delete\",\"exists_in_commit\":false}],\"selected_file_state\":[{\"path\":\"a\\\"b\",\"state\":\"file:1\"},{\"path\":\"c\",\"state\":\"absent\"}],\"warnings\":[\"w\"]}"
    );
    let hash = restore_plan_hash(None, " M a", "abc", &targets, &strings(&["file:1", "absent"]), &strings(&["w"])).unwrap();
    assert_eq!(hash, sha256_hex(&fingerprint));
    assert_eq!(hash.len(), 64);
    assert_eq!(
        sha256_hex("abc"),
        "ba7816bf8f01cfea414140de5dae2223b00361a396177a9cb410ff61f20015ad"
    );
}

#[test]
fn a_confirmation_must_repeat_the_plan_hash() {
    assert!(check_expected_plan_hash(true, Some("x"), "y").is_ok());
    assert!(check_expected_plan_hash(false, None, "y").is_ok());
    assert!(check_expected_plan_hash(false, Some("y"), "y").is_ok());
    assert_eq!(
        check_expected_plan_hash(false, Some("x"), "y").unwrap_err(),
        "恢复预览已过期，请重新预览"
    );
}

#[test]
fn plans_count_what_they_restore_and_delete() {
    let targets = vec![change("a", true), change("b", false), change("c", true)];
    assert_eq!(restore_diff_summary(&targets), "2 restore, 1 delete");
    let status = exited(true, " M src/x.rs\n?? .cunzhi-memory/checkpoints.jsonl\n", "");
    assert_eq!(checkpoint_status_snapshot(&status), " M src/x.rs");
    let plan = plan_restore(
        Some("head".to_string()),
        &status,
        "abc",
        targets,
        vec![],
        Ok(vec![FileProbe::File(b"v1\n".to_vec()), FileProbe::Absent, FileProbe::Dir(96)]),
        true,
        Some("ignored on a preview"),
    )
    .unwrap();
    assert!(plan.dirty_before_restore);
    assert_eq!(plan.plan_id, format!("rp_{}", &plan.plan_hash[..16]));
    assert_eq!(plan.diff_summary, "2 restore, 1 delete");
    assert!(creates_safety_checkpoint(false, true, &plan));
    assert!(!creates_safety_checkpoint(true, true, &plan));
    let hash = plan.plan_hash.clone();
    let stale = plan_restore(
        None,
        &status,
        "abc",
        vec![change("a", true)],
        vec![],
        Ok(vec![FileProbe::File(b"v1\n".to_vec())]),
        false,
        Some(&hash),
    );
    assert_eq!(stale.unwrap_err(), "恢复预览已过期，请重新预览");
    let result = restore_checkpoint_result(plan, true, "abc", true, None, strings(&["late"]), Some("soon".to_string()));
    assert!(result.ok && result.dry_run && result.will_create_safety_checkpoint);
    assert_eq!(result.mode, "restore_snapshot");
    assert_eq!(result.warnings, strings(&["late"]));
    assert_eq!(result.plan_expires_at.as_deref(), Some("soon"));
    assert_eq!(result.diff_summary.as_deref(), Some("2 restore, 1 delete"));
}

#[test]
fn git_answers_are_read() {
    assert_eq!(git_head_hash(&exited(true, " abc \n", "")), Some("abc".to_string()));
    assert_eq!(git_head_hash(&exited(true, " \n", "")), None);
    assert_eq!(git_head_hash(&exited(false, "abc", "")), None);
    assert_eq!(git_head_hash(&CommandOutcome::SpawnFailed("no git".to_string())), None);
    assert_eq!(checkpoint_status_snapshot(&exited(false, " M a", "")), "");
    assert!(restore_checkout_result(&exited(true, "", "")).is_ok());
    assert_eq!(
        restore_checkout_result(&exited(false, "", " error: pathspec \n")).unwrap_err(),
        "恢复 checkpoint 失败: error: pathspec"
    );
    assert_eq!(
        restore_checkout_result(&CommandOutcome::SpawnFailed("missing".to_string())).unwrap_err(),
        "执行 git checkout 失败: missing"
    );
}

#[test]
fn file_states_record_the_hash_of_the_bytes() {
    assert_eq!(
        file_state_of(&FileProbe::File(b"abc".to_vec())),
        "file:ba7816bf8f01cfea414140de5dae2223b00361a396177a9cb410ff61f20015ad"
    );
    assert_eq!(file_state_of(&FileProbe::Symlink("../target".to_string())), "symlink:../target");
    assert_eq!(file_state_of(&FileProbe::Dir(4096)), "dir:4096");
    assert_eq!(file_state_of(&FileProbe::Other), "other");
    assert_eq!(file_state_of(&FileProbe::Absent), "absent");
    assert_eq!(
        selected_file_state_snapshot(&vec![FileProbe::Absent, FileProbe::Dir(0)]),
        strings(&["absent", "dir:0"])
    );
}

#[test]
fn a_confirmation_after_the_file_changed_is_stale() {
    let status = exited(true, " M demo.txt\n", "");
    let preview = plan_restore(
        Some("head".to_string()),
        &status,
        "abc",
        vec![change("demo.txt", true)],
        vec![],
        Ok(vec![FileProbe::File(b"v3\n".to_vec())]),
        true,
        None,
    )
    .unwrap();
    let changed = plan_restore(
        Some("head".to_string()),
        &status,
        "abc",
        vec![change("demo.txt", true)],
        vec![],
        Ok(vec![FileProbe::File(b"v4\n".to_vec())]),
        false,
        Some(&preview.plan_hash),
    );
    assert_eq!(changed.unwrap_err(), "恢复预览已过期，请重新预览");
    let unchanged = plan_restore(
        Some("head".to_string()),
        &status,
        "abc",
        vec![change("demo.txt", true)],
        vec![],
        Ok(vec![FileProbe::File(b"v3\n".to_vec())]),
        false,
        Some(&preview.plan_hash),
    );
    assert_eq!(unchanged.unwrap().plan_hash, preview.plan_hash);
}
