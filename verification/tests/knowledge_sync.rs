use cunzhi::checkpoint::CommandOutcome;
use cunzhi::knowledge_sync::{KnowledgeSync, SyncAction, SyncCommand, SyncStage};

fn exited(success: bool, stdout: &str, stderr: &str) -> CommandOutcome {
    CommandOutcome::Exited { success, stdout: stdout.to_string(), stderr: stderr.to_string() }
}

#[test]
fn a_pull_without_local_changes() {
    let (mut run, action) = KnowledgeSync::start(Some("/k"), None);
    assert!(matches!(action, SyncAction::Run(SyncCommand::Status)));
    assert!(matches!(run.step(&exited(true, "  \n", "")), SyncAction::Run(SyncCommand::Fetch)));
    assert!(matches!(run.step(&exited(true, "", "")), SyncAction::Run(SyncCommand::Pull)));
    match run.step(&exited(true, "Already up to date.\n", "")) {
        SyncAction::Finish(Ok(report)) => assert_eq!(
            report,
            "## 🔄 知识库同步\n\n目录: `/k`\n\n✅ 本地无变更\n✅ Fetched from origin\n✅ Already up to date"
        ),
        other => panic!("unexpected {:?}", other),
    }
    assert_eq!(run.stage, SyncStage::Done);
}

#[test]
fn both_directions_commit_then_pull_then_push() {
    let (mut run, _) = KnowledgeSync::start(Some("/k"), Some("both"));
    assert!(matches!(run.step(&exited(true, " M a.md\n", "")), SyncAction::Run(SyncCommand::AddAll)));
    match run.step(&exited(true, "", "")) {
        SyncAction::Run(SyncCommand::Commit(message)) => assert!(message.starts_with("sync: ")),
        other => panic!("unexpected {:?}", other),
    }
    assert!(matches!(run.step(&exited(true, "", "")), SyncAction::Run(SyncCommand::Fetch)));
    assert!(matches!(run.step(&exited(false, "", "")), SyncAction::Run(SyncCommand::Pull)));
    assert!(matches!(
        run.step(&exited(false, "", "CONFLICT (content): a.md\n")),
        SyncAction::Run(SyncCommand::Push)
    ));
    match run.step(&exited(false, "", " rejected \n")) {
        SyncAction::Finish(Ok(report)) => assert_eq!(
            report,
            "## 🔄 知识库同步\n\n目录: `/k`\n\n✅ 本地变更已提交\n⚠️ Merge 冲突，需要手动解决: CONFLICT (content): a.md\n⚠️ git push 失败: rejected"
        ),
        other => panic!("unexpected {:?}", other),
    }
}

#[test]
fn a_push_only_run_and_its_failures() {
    let (mut run, _) = KnowledgeSync::start(Some("/k"), Some("push"));
    assert!(matches!(run.step(&exited(true, "", "")), SyncAction::Run(SyncCommand::Push)));
    match run.step(&exited(true, "", "")) {
        SyncAction::Finish(Ok(report)) => assert!(report.ends_with("✅ 本地无变更\n🚀 已推送到 GitHub")),
        other => panic!("unexpected {:?}", other),
    }
    let (mut failing, _) = KnowledgeSync::start(Some("/k"), None);
    match failing.step(&CommandOutcome::SpawnFailed("no git".to_string())) {
        SyncAction::Finish(Err(e)) => assert_eq!(e, "git status 失败: no git"),
        other => panic!("unexpected {:?}", other),
    }
    let (none, action) = KnowledgeSync::start(None, None);
    assert_eq!(none.stage, SyncStage::Done);
    match action {
        SyncAction::Finish(Ok(t)) => assert_eq!(t, "⚠️ 未找到 .cunzhi-knowledge 目录，无法同步"),
        other => panic!("unexpected {:?}", other),
    }
}
