use cunzhi::conversation_log::{
    build_conversation_block, build_conversation_meta_comment, build_user_section,
    checkpoint_registry_line, conversation_commit_message, conversation_file_name,
    force_sync_conversations, format_path_block, paths_missing_from_text, resolve_device_id,
    resolve_project_name, strip_auto_prompt, ConversationEntry,
};

fn entry() -> ConversationEntry {
    ConversationEntry {
        conversation_id: None,
        current_node_id: None,
        timeline_route_id: None,
        run_id: None,
        generation: None,
        stale_of: None,
        superseded_by: None,
        ai_message: "AI 内容".to_string(),
        user_response: "用户回复".to_string(),
        project_path: None,
        image_count: 0,
        file_paths: vec![],
        image_paths: vec![],
        selected_options: vec![],
        request_id: None,
        checkpoint_id: None,
        checkpoint_commit: None,
        push_status: None,
        response_source: None,
        workspace_checkpoint_message: None,
    }
}

#[test]
fn strip_auto_prompt_removes_line_markers() {
    let input = "正常内容\n✔️继续调用 zhi\n后续提示";
    assert_eq!(strip_auto_prompt(input), "正常内容");
}

#[test]
fn strip_auto_prompt_keeps_normal_text() {
    let input = "正常内容\n第二行";
    assert_eq!(strip_auto_prompt(input), "正常内容\n第二行");
}

#[test]
fn strip_auto_prompt_cuts_at_the_first_sentinel() {
    assert_eq!(
        strip_auto_prompt("回答  \n<!-- AUTO_PROMPT_START -->\n提示"),
        "回答"
    );
    assert_eq!(
        strip_auto_prompt("a <!-- CONTEXT_INJECTION_START --> b\n  快捷触发词 x"),
        "a"
    );
    assert_eq!(strip_auto_prompt("   ✔请记住 this"), "   ✔请记住 this");
    assert_eq!(strip_auto_prompt("  ✔继续调用 zhi"), "");
}

#[test]
fn user_section_falls_back_to_the_chosen_options() {
    let mut e = entry();
    assert_eq!(build_user_section(&e), Some("用户回复".to_string()));
    e.user_response = "✔️继续调用 zhi".to_string();
    e.selected_options = vec!["A".to_string(), "B".to_string()];
    assert_eq!(build_user_section(&e), Some("选中的选项: A, B".to_string()));
    e.selected_options.clear();
    assert_eq!(build_user_section(&e), None);
}

#[test]
fn only_unmentioned_paths_are_listed() {
    let paths = vec![" /a/b.png ".to_string(), "".to_string(), "/c.txt".to_string()];
    assert_eq!(
        paths_missing_from_text(&paths, Some("see /c.txt")),
        vec!["/a/b.png".to_string()]
    );
    assert_eq!(paths_missing_from_text(&paths, None).len(), 2);
    assert_eq!(
        format_path_block("附加文件路径", &paths),
        Some("附加文件路径：\n- /a/b.png\n- /c.txt".to_string())
    );
    assert_eq!(format_path_block("x", &vec!["  ".to_string()]), None);
}

#[test]
fn project_and_device_names() {
    assert_eq!(resolve_project_name(Some("/Users/me/demo-project")), "demo-project");
    assert_eq!(resolve_project_name(Some("/Users/me/demo-project/")), "demo-project");
    assert_eq!(resolve_project_name(Some("/Users/me/..")), "unknown");
    assert_eq!(resolve_project_name(Some("  ")), "unknown");
    assert_eq!(resolve_project_name(None), "unknown");
    assert_eq!(resolve_device_id(Some(" host.local\n")), "host");
    assert_eq!(resolve_device_id(None), "unknown");
    assert_eq!(conversation_file_name("demo", "host"), "demo__host.md");
    assert_eq!(
        conversation_commit_message("2026-04-09", "08:00:00"),
        "auto: conversation 2026-04-09_08:00:00"
    );
}

#[test]
fn meta_comment_escapes_double_dashes() {
    let mut e = entry();
    e.request_id = Some("req--1".to_string());
    e.generation = Some(7);
    assert_eq!(
        build_conversation_meta_comment(&e),
        "<!-- cunzhi-meta: {\"schema\":\"cunzhi.conversation.v1\",\"request_id\":\"req\\u002d\\u002d1\",\"generation\":7} -->"
    );
}

#[test]
fn registry_line_needs_every_id() {
    let mut e = entry();
    e.project_path = Some("/repo".to_string());
    e.request_id = Some("req".to_string());
    e.checkpoint_id = Some("cp_1".to_string());
    e.checkpoint_commit = Some("abc".to_string());
    assert_eq!(checkpoint_registry_line(&e, "t"), None);
    e.workspace_checkpoint_message = Some("iterate-checkpoint:x | y".to_string());
    assert_eq!(
        checkpoint_registry_line(&e, "2026-04-09T08:00:00+08:00"),
        Some("{\"conversation_id\":null,\"request_id\":\"req\",\"checkpoint_id\":\"cp_1\",\"checkpoint_commit\":\"abc\",\"checkpoint_message\":\"iterate-checkpoint:x | y\",\"push_status\":null,\"project_path\":\"/repo\",\"logged_at\":\"2026-04-09T08:00:00+08:00\"}".to_string())
    );
}

#[test]
fn conversation_block_is_the_markdown_of_the_exchange() {
    let mut e = entry();
    e.image_count = 1;
    let block = build_conversation_block(&e, "08:00:00", "demo-project").unwrap();
    assert!(block.starts_with("## 08:00:00  @ demo-project\n<!-- cunzhi-meta: "));
    assert!(block.contains("### 🤖 AI\nAI 内容"));
    assert!(block.contains("### 👤 用户\n用户回复"));
    assert!(block.contains("📷 *附图 1 张*"));
    assert!(block.ends_with("\n---\n"));
    e.ai_message = "  ".to_string();
    assert_eq!(build_conversation_block(&e, "t", "p"), None);
    force_sync_conversations();
}

#[test]
fn conversation_block_lists_attachments_and_the_checkpoint() {
    let mut e = entry();
    e.file_paths = vec!["/tmp/a.txt".to_string()];
    e.image_paths = vec!["/tmp/b.png".to_string()];
    e.image_count = 1;
    e.workspace_checkpoint_message = Some(" iterate-checkpoint:t | s ".to_string());
    let block = build_conversation_block(&e, "t", "p").unwrap();
    assert!(block.contains("AI 内容\niterate-checkpoint:t | s\n"));
    assert!(block.contains("\n附加文件路径：\n- /tmp/a.txt\n"));
    assert!(block.contains("\n附加图片路径：\n- /tmp/b.png\n"));
    assert!(!block.contains("📷"));
}

#[test]
fn registry_line_escapes_quotes_backslashes_and_controls() {
    let mut e = entry();
    e.project_path = Some("C:\\repo".to_string());
    e.request_id = Some("r\"1".to_string());
    e.checkpoint_id = Some("cp_1".to_string());
    e.checkpoint_commit = Some("abc".to_string());
    e.workspace_checkpoint_message = Some("s\n\tb\u{1}\u{1f}\u{8}\u{c}\r/".to_string());
    assert_eq!(
        checkpoint_registry_line(&e, "t"),
        Some("{\"conversation_id\":null,\"request_id\":\"r\\\"1\",\"checkpoint_id\":\"cp_1\",\"checkpoint_commit\":\"abc\",\"checkpoint_message\":\"s\\n\\tb\\u0001\\u001f\\b\\f\\r/\",\"push_status\":null,\"project_path\":\"C:\\\\repo\",\"logged_at\":\"t\"}".to_string())
    );
}
