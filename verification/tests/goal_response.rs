use cunzhi::checkpoint_run::CheckpointMetadata;
use cunzhi::goal_response::{conversation_entry_for, ReplyIds};
use cunzhi::goal_response::{
    collapse_extra_blank_lines, end_dialog_response, enrich_goal_response_with_attachment_paths,
    format_path_list, zhi_reply_content,
    inject_goal_response_context, is_goal_response_source, normalize_goal_closing_spacing,
    paths_missing_from_input, prepend_selected_options_to_user_input,
    strip_goal_image_reference_context, DialogResponse,
};

#[test]
fn enrich_goal_response_adds_saved_image_paths_inside_target() {
    let mut response = DialogResponse {
        keep_going: true,
        user_input: "进入 GoalRun 目标模式。\n\n目标：\n《看这张图\n\n附加图片：1 张\n附件地址：\n- images[0]\n（见 images 附件）》\n\n执行规则：继续".to_string(),
        response_source: "web_bridge_goal_submit".to_string(),
        selected_options: vec![],
        file_paths: vec![],
        image_paths: vec!["/Users/test/.cunzhi/images/image_123_0.jpg".to_string()],
        error: None,
    };

    enrich_goal_response_with_attachment_paths(&mut response);

    assert!(!response.user_input.contains("附件地址："));
    assert!(!response.user_input.contains("images[0]"));
    assert!(!response.user_input.contains("见 images 附件"));
    assert!(response
        .user_input
        .contains("附加图片路径：\n- /Users/test/.cunzhi/images/image_123_0.jpg"));
    assert!(response
        .user_input
        .contains("附加图片路径：\n- /Users/test/.cunzhi/images/image_123_0.jpg》"));
    assert!(response.user_input.contains("》\n\n执行规则"));
}

#[test]
fn enrich_goal_response_adds_selected_options_inside_target() {
    let mut response = DialogResponse {
        keep_going: true,
        user_input: "进入 GoalRun 目标模式。\n\n目标：\n《修复目标提交》\n\n执行规则：继续"
            .to_string(),
        response_source: "web_bridge_goal_submit".to_string(),
        selected_options: vec!["桌面一起做".to_string(), "手机一起做".to_string()],
        file_paths: vec![],
        image_paths: vec![],
        error: None,
    };

    enrich_goal_response_with_attachment_paths(&mut response);

    assert!(response
        .user_input
        .contains("目标：\n《修复目标提交\n\n选中的选项：\n- 桌面一起做\n- 手机一起做》"));
}

#[test]
fn enrich_goal_response_does_not_duplicate_selected_options() {
    let mut response = DialogResponse {
        keep_going: true,
        user_input: "进入 GoalRun 目标模式。\n\n目标：\n《修复目标提交\n\n选中的选项：\n- 桌面一起做》\n\n执行规则：继续".to_string(),
        response_source: "web_bridge_goal_submit".to_string(),
        selected_options: vec!["桌面一起做".to_string()],
        file_paths: vec![],
        image_paths: vec![],
        error: None,
    };

    enrich_goal_response_with_attachment_paths(&mut response);

    assert_eq!(response.user_input.matches("桌面一起做").count(), 1);
    assert_eq!(response.user_input.matches("选中的选项：").count(), 1);
}

#[test]
fn enrich_goal_response_adds_missing_image_path_when_file_path_already_present() {
    let mut response = DialogResponse {
        keep_going: true,
        user_input: "进入 GoalRun 目标模式。\n\n目标：\n《修复目标提交\n\n相关文件：\n@/tmp/plan.md》\n\n执行规则：继续".to_string(),
        response_source: "web_bridge_goal_submit".to_string(),
        selected_options: vec![],
        file_paths: vec!["/tmp/plan.md".to_string()],
        image_paths: vec!["/Users/test/.cunzhi/images/image_123_0.jpg".to_string()],
        error: None,
    };

    enrich_goal_response_with_attachment_paths(&mut response);

    assert_eq!(response.user_input.matches("/tmp/plan.md").count(), 1);
    assert!(!response.user_input.contains("images[0]"));
    assert!(!response.user_input.contains("见 images 附件"));
    assert!(response
        .user_input
        .contains("附加图片路径：\n- /Users/test/.cunzhi/images/image_123_0.jpg》"));
}

#[test]
fn strip_goal_image_reference_context_removes_single_line_legacy_context() {
    let stripped = strip_goal_image_reference_context(
        "进入 GoalRun 目标模式。\n\n目标：\n《修复\n\n附加图片：1 张（见 images 附件）》\n\n执行规则：继续",
    );

    assert!(!stripped.contains("见 images 附件"));
    assert_eq!(stripped.matches("修复").count(), 1);
    assert!(stripped.contains("目标：\n《修复》"));
}

#[test]
fn prepend_selected_options_to_user_input_places_options_before_text() {
    let display = prepend_selected_options_to_user_input(
        "✔️不明白的地方反问我，先不着急编码",
        &vec!["先做 T7".to_string()],
    );

    assert_eq!(
        display,
        "选中的选项: 先做 T7\n\n✔️不明白的地方反问我，先不着急编码"
    );
}

#[test]
fn enrich_goal_response_skips_non_goal_sources() {
    let mut response = DialogResponse {
        keep_going: true,
        user_input: "普通回复".to_string(),
        response_source: "popup_submit".to_string(),
        selected_options: vec![],
        file_paths: vec![],
        image_paths: vec!["/Users/test/.cunzhi/images/image_123_0.jpg".to_string()],
        error: None,
    };

    enrich_goal_response_with_attachment_paths(&mut response);

    assert_eq!(response.user_input, "普通回复");
}

#[test]
fn goal_sources_are_recognised_case_insensitively() {
    assert!(is_goal_response_source("  Web_Bridge_GOAL_Submit "));
    assert!(is_goal_response_source("goal"));
    assert!(is_goal_response_source("GOAL_START"));
    assert!(is_goal_response_source("popup_goal"));
    assert!(!is_goal_response_source("goals"));
    assert!(!is_goal_response_source(""));
}

#[test]
fn blank_runs_are_cut_to_two_and_closing_gaps_removed() {
    assert_eq!(collapse_extra_blank_lines("  a\n\n\n\n b \n  \n"), "a\n\n\n b");
    assert_eq!(normalize_goal_closing_spacing("x\n\n\n》y\n》\nz"), "x》y》\nz");
    assert_eq!(normalize_goal_closing_spacing("no close\n"), "no close\n");
}

#[test]
fn path_lists_and_missing_paths() {
    assert_eq!(format_path_list("L", &vec![]), None);
    assert_eq!(format_path_list("L", &vec!["  ".to_string()]), Some("L：\n".to_string()));
    assert_eq!(
        format_path_list("L", &vec![" /a ".to_string(), "/b".to_string()]),
        Some("L：\n- /a\n- /b".to_string())
    );
    assert_eq!(
        paths_missing_from_input("see /a", &vec![" /a".to_string(), "/c ".to_string(), "".to_string()]),
        vec!["/c".to_string()]
    );
}

#[test]
fn context_goes_at_the_end_without_a_closing_mark() {
    let text = inject_goal_response_context("plain goal  \n", &vec!["opt".to_string()], &vec![], &vec![]);
    assert_eq!(text, "plain goal\n\n选中的选项：\n- opt");
    let same = inject_goal_response_context("《done》", &vec![], &vec![], &vec![]);
    assert_eq!(same, "《done》");
}

fn reply(user_input: &str, source: &str) -> DialogResponse {
    DialogResponse {
        keep_going: true,
        user_input: user_input.to_string(),
        response_source: source.to_string(),
        selected_options: vec!["A".to_string()],
        file_paths: vec!["/f1".to_string(), "/f2".to_string()],
        image_paths: vec![],
        error: None,
    }
}

#[test]
fn the_assistant_is_told_the_reply_line_by_line() {
    let content = zhi_reply_content(&reply("hello", "popup_submit"), None).unwrap();
    assert_eq!(
        content,
        "用户输入: 选中的选项: A\n\nhello\n附加文件: /f1, /f2\n继续对话: true\n响应来源: popup_submit"
    );
    let goal = zhi_reply_content(&reply("goal text", "goal"), Some("port=1")).unwrap();
    assert_eq!(
        goal,
        "用户输入: goal text\n附加文件: /f1, /f2\n继续对话: true\n响应来源: goal\n运行时诊断: port=1"
    );
    let mut failed = reply("x", "");
    failed.error = Some("boom".to_string());
    assert_eq!(zhi_reply_content(&failed, None).unwrap_err(), "iterate 错误: boom");
}

#[test]
fn an_ended_conversation_carries_nothing_on() {
    let mut r = reply("bye", "popup_submit");
    end_dialog_response(&mut r, "popup_closed");
    assert!(!r.keep_going);
    assert_eq!(r.response_source, "popup_closed");
    assert!(r.selected_options.is_empty() && r.file_paths.is_empty() && r.image_paths.is_empty());
    let content = zhi_reply_content(&r, None).unwrap();
    assert_eq!(content, "用户输入: bye\n继续对话: false\n响应来源: popup_closed");
}

fn reply_ids() -> ReplyIds {
    ReplyIds {
        source: Some("popup".to_string()),
        conversation_id: None,
        tree_id: Some("tree-1".to_string()),
        current_node_id: Some("node-2".to_string()),
        node_id: Some("node-x".to_string()),
        timeline_route_id: None,
        conversation_route_id: None,
        run_id: Some("run-3".to_string()),
        generation: Some(4),
        stale_of: None,
        superseded_by: None,
    }
}

#[test]
fn a_logged_exchange_takes_ids_from_the_reply_metadata() {
    let reply = DialogResponse {
        keep_going: false,
        user_input: "好的".to_string(),
        response_source: "  ".to_string(),
        selected_options: vec!["继续".to_string()],
        file_paths: vec!["/tmp/a.txt".to_string()],
        image_paths: vec!["/tmp/b.png".to_string(), "/tmp/c.png".to_string()],
        error: None,
    };
    let checkpoint = CheckpointMetadata {
        checkpoint_id: "cp_1".to_string(),
        commit_hash: "abc".to_string(),
        commit_subject: "checkpoint: x".to_string(),
        push_status: "skipped".to_string(),
    };
    let entry = conversation_entry_for(
        "/Users/me/proj",
        "AI says",
        &reply,
        &reply_ids(),
        Some("req-1".to_string()),
        Some("route-from-request".to_string()),
        Some(&checkpoint),
    );
    assert_eq!(entry.conversation_id.as_deref(), Some("tree-1"));
    assert_eq!(entry.current_node_id.as_deref(), Some("node-2"));
    assert_eq!(entry.timeline_route_id.as_deref(), Some("route-from-request"));
    assert_eq!(entry.run_id.as_deref(), Some("run-3"));
    assert_eq!(entry.generation, Some(4));
    assert_eq!(entry.user_response, "好的");
    assert_eq!(entry.project_path.as_deref(), Some("/Users/me/proj"));
    assert_eq!(entry.image_count, 2);
    assert_eq!(entry.selected_options, vec!["继续".to_string()]);
    assert_eq!(entry.checkpoint_commit.as_deref(), Some("abc"));
    assert_eq!(entry.workspace_checkpoint_message.as_deref(), Some("checkpoint: x"));
    assert_eq!(entry.response_source.as_deref(), Some("popup"));

    let blank = conversation_entry_for(" ", "AI", &reply, &reply_ids(), None, None, None);
    assert_eq!(blank.project_path, None);
    assert_eq!(blank.timeline_route_id, None);
    assert_eq!(blank.checkpoint_id, None);
}
