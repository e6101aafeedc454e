use cunzhi::speech::{
    cleanup_popup_speech_target_registry, fn_owner_metadata_text, fn_owner_replacement,
    has_fn_owner_metadata, i32_text, is_mcp_request_process, normalize_optional_string,
    overlay_creation_allowed, owner_matches_current_binary, parse_fn_owner_metadata,
    check_popup_ipc_request, latest_registered_popup_target, popup_speech_target_for,
    speech_runtime_owner, speech_runtime_writeback, withdrawal_clears_active, FnOwnerMetadata, pending_popup_ipc_insert_matches, popup_ipc_ack_response, popup_target_pid_i32, process_is_alive,
    record_paste_error, record_runtime_event, registered_popup_speech_target_for_pid,
    remove_registered_popup_speech_target, select_paste_dispatch_route,
    should_preserve_retained_target_for_own_main_process, upsert_registered_popup_speech_target,
    validate_popup_ipc_response, FnOwnerReplacement, FocusDispatchMode, FocusedElementCaptureError,
    FocusedProcessInfo, NativeSpeechRecognitionMode, OwnerEpoch, PasteDispatchRoute,
    PendingPopupIpcAck, PopupSpeechIpcResponse, PopupSpeechTarget, PopupSpeechTargetView,
    SpeechLayerIdentity, SpeechProcessRole, SpeechRuntimeEventState, SpeechTarget,
    AX_ERROR_NO_VALUE, capture_target_step, capture_focus_result, CaptureDecision,
};
use cunzhi::speech_windows::{
    powershell_encoded_command, read_clipboard_text, recognize_once, speech_capability,
    utf16le_bytes, write_clipboard_script, write_clipboard_text,
};
use cunzhi::checkpoint::CommandOutcome;

fn test_speech_identity() -> SpeechLayerIdentity {
    SpeechLayerIdentity::new(OwnerEpoch(u128::from_le_bytes([7; 16])), 11, 13, 17)
}

fn focused_process(pid: i32, bundle_id: Option<&str>) -> FocusedProcessInfo {
    FocusedProcessInfo {
        pid,
        bundle_id: bundle_id.map(str::to_string),
        name: Some("focused-test-process".to_string()),
    }
}

fn target(pid: u32, request_id: &str, updated_at: &str) -> PopupSpeechTarget {
    PopupSpeechTarget {
        window_label: "main".to_string(),
        request_id: request_id.to_string(),
        pid: Some(pid),
        project_path: None,
        reason: None,
        updated_at: Some(updated_at.to_string()),
        ipc_socket_path: Some("/tmp/s.sock".to_string()),
        ipc_token: Some("tok".to_string()),
    }
}

fn ran(success: bool, stdout: &str, stderr: &str) -> CommandOutcome {
    CommandOutcome::Exited {
        success,
        stdout: stdout.to_string(),
        stderr: stderr.to_string(),
    }
}

#[test]
fn defaults_to_quality_mode() {
    assert_eq!(
        NativeSpeechRecognitionMode::from_option(None),
        NativeSpeechRecognitionMode::Quality
    );
    assert_eq!(
        NativeSpeechRecognitionMode::from_option(Some("".to_string())),
        NativeSpeechRecognitionMode::Quality
    );
}

#[test]
fn preserves_explicit_privacy_mode() {
    let mode = NativeSpeechRecognitionMode::from_option(Some("privacy".to_string()));

    assert_eq!(mode, NativeSpeechRecognitionMode::Privacy);
    assert!(mode.force_on_device());
}

#[test]
fn recognition_mode_names() {
    assert_eq!(NativeSpeechRecognitionMode::Quality.as_str(), "quality");
    assert_eq!(
        NativeSpeechRecognitionMode::from_option(Some(" privacy\n".to_string())).as_str(),
        "privacy"
    );
    assert!(!NativeSpeechRecognitionMode::Quality.force_on_device());
}

#[test]
fn external_paste_routes_to_the_verified_frontmost_first_responder() {
    let focused = focused_process(76225, Some("com.google.Chrome"));
    assert_eq!(
        select_paste_dispatch_route(Some(76052), Some(&focused), "com.google.Chrome", FocusDispatchMode::Exact),
        PasteDispatchRoute::AnnotatedSession,
    );
}

#[test]
fn codex_paste_uses_hid_for_the_verified_webview_first_responder() {
    let focused = focused_process(3244, Some("com.openai.codex"));
    assert_eq!(
        select_paste_dispatch_route(Some(3244), Some(&focused), "com.openai.codex", FocusDispatchMode::Exact),
        PasteDispatchRoute::AnnotatedSession,
    );
}

#[test]
fn external_paste_uses_hid_when_target_is_frontmost_but_ax_focus_is_unavailable() {
    assert_eq!(
        select_paste_dispatch_route(Some(76052), None, "com.openai.codex", FocusDispatchMode::Exact),
        PasteDispatchRoute::AnnotatedSession,
    );
}

#[test]
fn codex_no_value_fallback_uses_annotated_session_after_frontmost_guard() {
    assert_eq!(
        select_paste_dispatch_route(Some(11268), None, "com.openai.codex", FocusDispatchMode::FrontmostPidFallback),
        PasteDispatchRoute::AnnotatedSession,
    );
}

#[test]
fn only_ax_no_value_allows_frontmost_pid_fallback() {
    assert!(FocusedElementCaptureError::ax_copy(AX_ERROR_NO_VALUE).allows_frontmost_pid_fallback());
    assert!(!FocusedElementCaptureError::ax_copy(-25211).allows_frontmost_pid_fallback());
    assert!(!FocusedElementCaptureError::other("focused pid mismatch").allows_frontmost_pid_fallback());
}

#[test]
fn external_paste_aborts_when_focus_belongs_to_iterate() {
    let focused = focused_process(94984, Some("com.kexin94yyds.iterate"));
    assert_eq!(
        select_paste_dispatch_route(Some(76052), Some(&focused), "com.openai.codex", FocusDispatchMode::FrontmostPidFallback),
        PasteDispatchRoute::Abort("focused-own-app"),
    );
}

#[test]
fn external_paste_aborts_when_known_focus_belongs_to_another_app() {
    let focused = focused_process(44747, Some("com.google.Chrome"));
    assert_eq!(
        select_paste_dispatch_route(Some(76052), Some(&focused), "com.openai.codex", FocusDispatchMode::FrontmostPidFallback),
        PasteDispatchRoute::Abort("focused-bundle-mismatch"),
    );
}

#[test]
fn external_paste_uses_hid_for_an_ax_owned_process_without_a_bundle_identity() {
    let focused = focused_process(76225, None);
    assert_eq!(
        select_paste_dispatch_route(Some(76052), Some(&focused), "com.google.Chrome", FocusDispatchMode::Exact),
        PasteDispatchRoute::AnnotatedSession,
    );
}

#[test]
fn external_paste_aborts_without_an_exact_frontmost_target_pid() {
    assert_eq!(
        select_paste_dispatch_route(None, None, "com.openai.codex", FocusDispatchMode::FrontmostPidFallback),
        PasteDispatchRoute::Abort("missing-frontmost-pid"),
    );
}

#[test]
fn external_paste_uses_hid_when_ax_returns_an_invalid_pid() {
    let focused = focused_process(0, Some("com.openai.codex"));
    assert_eq!(
        select_paste_dispatch_route(Some(76052), Some(&focused), "com.openai.codex", FocusDispatchMode::Exact),
        PasteDispatchRoute::AnnotatedSession,
    );
}

#[test]
fn capture_error_messages_carry_the_code() {
    assert_eq!(
        FocusedElementCaptureError::ax_copy(-25212).message,
        "AXFocusedUIElement error=-25212"
    );
    assert_eq!(i32_text(i32::MIN), i32::MIN.to_string());
    assert_eq!(i32_text(42), "42");
}

#[test]
fn popup_ipc_rejects_ack_for_a_different_insert() {
    let identity = test_speech_identity();
    let response = PopupSpeechIpcResponse {
        ok: true,
        identity,
        request_id: "serve-test".to_string(),
        window_label: "main".to_string(),
        insert_id: "wrong-insert".to_string(),
        text_len: Some(3),
        error: None,
    };
    let error = validate_popup_ipc_response(response, identity, "serve-test", "main", "expected-insert", 3)
        .expect_err("a mismatched insert id must not acknowledge writeback");
    assert!(error.contains("mismatched typed acknowledgement"));
}

#[test]
fn popup_ipc_authority_requires_the_exact_pending_identity_and_lease() {
    let identity = test_speech_identity();
    let pending = PendingPopupIpcAck {
        identity,
        request_id: "serve-test".to_string(),
        window_label: "main".to_string(),
        text_len: 10,
    };
    assert!(pending_popup_ipc_insert_matches(&pending, identity, "serve-test", "main", 10));
    assert!(!pending_popup_ipc_insert_matches(
        &pending,
        SpeechLayerIdentity::new(OwnerEpoch(u128::from_le_bytes([9; 16])), 11, 13, 17),
        "serve-test",
        "main",
        10,
    ));
    assert!(!pending_popup_ipc_insert_matches(&pending, identity, "serve-other", "main", 10));
    assert!(!pending_popup_ipc_insert_matches(&pending, identity, "serve-test", "main", 9));
    assert!(pending_popup_ipc_insert_matches(&pending, identity, " serve-test ", " main\n", 10));
}

#[test]
fn popup_ipc_preserves_remote_timeout_error() {
    let identity = test_speech_identity();
    let response = PopupSpeechIpcResponse {
        ok: false,
        identity,
        request_id: "serve-test".to_string(),
        window_label: "main".to_string(),
        insert_id: "insert-test".to_string(),
        text_len: None,
        error: Some("popup ACK timeout".to_string()),
    };
    let error = validate_popup_ipc_response(response, identity, "serve-test", "main", "insert-test", 3)
        .expect_err("a negative ACK must fail dispatch");
    assert_eq!(error, "popup ACK timeout");
}

#[test]
fn popup_ipc_accepts_the_exact_acknowledgement() {
    let identity = test_speech_identity();
    let response = PopupSpeechIpcResponse {
        ok: true,
        identity,
        request_id: "r".to_string(),
        window_label: "w".to_string(),
        insert_id: "i".to_string(),
        text_len: Some(3),
        error: None,
    };
    assert!(validate_popup_ipc_response(response, identity, "r", "w", "i", 3).is_ok());
    let short = PopupSpeechIpcResponse {
        ok: true,
        identity,
        request_id: "r".to_string(),
        window_label: "w".to_string(),
        insert_id: "i".to_string(),
        text_len: Some(2),
        error: None,
    };
    assert_eq!(
        validate_popup_ipc_response(short, identity, "r", "w", "i", 3).unwrap_err(),
        "popup speech IPC acknowledgement text length mismatch"
    );
}

#[test]
fn own_main_process_overlay_preserves_a_different_captured_target() {
    let retained = SpeechTarget::ExternalApp {
        bundle_id: "com.openai.codex".to_string(),
        pid: Some(5402),
    };
    assert!(should_preserve_retained_target_for_own_main_process(Some(&retained), 788, false));
}

#[test]
fn real_mcp_request_process_can_replace_the_retained_target() {
    let retained = SpeechTarget::ExternalApp {
        bundle_id: "com.openai.codex".to_string(),
        pid: Some(5402),
    };
    assert!(!should_preserve_retained_target_for_own_main_process(Some(&retained), 90995, true));
}

#[test]
fn own_main_process_without_a_retained_target_still_captures_normally() {
    assert!(!should_preserve_retained_target_for_own_main_process(None, 788, false));
}

#[test]
fn speech_target_summaries() {
    let external = SpeechTarget::ExternalApp {
        bundle_id: "com.openai.codex".to_string(),
        pid: None,
    };
    assert_eq!(external.kind(), "external-app");
    assert_eq!(external.bundle_id(), Some("com.openai.codex"));
    assert_eq!(external.summary(), "kind=external-app bundle_id=com.openai.codex pid=<unknown>");
    let popup = SpeechTarget::IteratePopupInput {
        window_label: "main".to_string(),
        request_id: "r1".to_string(),
        pid: Some(-3),
    };
    assert_eq!(popup.pid(), Some(-3));
    assert_eq!(
        popup.summary(),
        "kind=iterate-popup-input window_label=main request_id=r1 pid=-3"
    );
}

#[test]
fn parse_fn_owner_metadata_preserves_values_with_spaces() {
    let metadata = parse_fn_owner_metadata(
        "pid=123\n\
         bundle_id=com.kexin94yyds.iterate\n\
         exe_path=/Applications/iterate beta.app/Contents/MacOS/iterate\n\
         cdhash=abc123\n",
    );
    assert_eq!(metadata.pid, Some(123));
    assert_eq!(
        metadata.exe_path.as_deref(),
        Some("/Applications/iterate beta.app/Contents/MacOS/iterate")
    );
    assert_eq!(metadata.cdhash.as_deref(), Some("abc123"));
}

#[test]
fn owner_metadata_round_trips_through_its_text() {
    let metadata = parse_fn_owner_metadata("pid=7\nteam_id=T1\nacquired_at=now\njunk\n");
    let text = fn_owner_metadata_text(&metadata);
    assert_eq!(text, "pid=7\nteam_id=T1\nacquired_at=now\n");
    let again = parse_fn_owner_metadata(&text);
    assert_eq!(again.pid, Some(7));
    assert_eq!(again.team_id.as_deref(), Some("T1"));
    assert!(has_fn_owner_metadata(&again));
    assert!(!has_fn_owner_metadata(&parse_fn_owner_metadata("pid=x\n")));
}

#[test]
fn owner_binary_match_prefers_the_code_hash() {
    let a = parse_fn_owner_metadata("cdhash=1\nexe_path=/a\n");
    let b = parse_fn_owner_metadata("cdhash=2\nexe_path=/a\n");
    let c = parse_fn_owner_metadata("exe_path=/a\n");
    assert_eq!(owner_matches_current_binary(&a, &b), Some(false));
    assert_eq!(owner_matches_current_binary(&a, &c), Some(true));
    assert_eq!(owner_matches_current_binary(&c, &parse_fn_owner_metadata("")), None);
}

#[test]
fn owner_replacement_kinds() {
    let previous = parse_fn_owner_metadata("pid=10\ncdhash=a\n");
    let current = parse_fn_owner_metadata("pid=11\ncdhash=a\n");
    assert_eq!(
        fn_owner_replacement(Some(&previous), &current, false),
        Some(FnOwnerReplacement::StaleReaped)
    );
    assert_eq!(
        fn_owner_replacement(Some(&previous), &current, true),
        Some(FnOwnerReplacement::UnlockedReplaced)
    );
    assert_eq!(fn_owner_replacement(Some(&previous), &previous, true), None);
    assert_eq!(fn_owner_replacement(None, &current, true), None);
    let no_pid = parse_fn_owner_metadata("exe_path=/x\n");
    assert_eq!(
        fn_owner_replacement(Some(&no_pid), &current, true),
        Some(FnOwnerReplacement::MetadataReplaced)
    );
}

#[test]
fn registry_keeps_live_named_targets() {
    let mut targets = vec![target(1, "a", "1"), target(2, "b", "1"), target(1, " ", "1")];
    cleanup_popup_speech_target_registry(&mut targets, &vec![1]);
    assert_eq!(targets.len(), 1);
    assert_eq!(targets[0].request_id, "a");
}

#[test]
fn registry_upsert_replaces_the_same_request() {
    let mut targets = vec![target(1, "a", "1"), target(1, "b", "1")];
    upsert_registered_popup_speech_target(&mut targets, target(1, "a", "2"), &vec![1]).unwrap();
    assert_eq!(targets.len(), 2);
    assert_eq!(targets[0].request_id, "b");
    assert_eq!(targets[1].updated_at.as_deref(), Some("2"));
    let mut no_pid = target(1, "c", "1");
    no_pid.pid = None;
    assert_eq!(
        upsert_registered_popup_speech_target(&mut targets, no_pid, &vec![1]).unwrap_err(),
        "popup speech target pid is required"
    );
}

#[test]
fn registry_removal_withdraws_own_requests() {
    let mut targets = vec![target(1, "a", "1"), target(1, "b", "1"), target(2, "a", "1")];
    remove_registered_popup_speech_target(&mut targets, 1, " a ", &vec![1, 2]);
    assert_eq!(targets.len(), 2);
    remove_registered_popup_speech_target(&mut targets, 1, "", &vec![1, 2]);
    assert_eq!(targets.len(), 1);
    assert_eq!(targets[0].pid, Some(2));
}

#[test]
fn the_latest_target_of_a_process_wins() {
    let targets = vec![target(5, "a", "2026-01-02"), target(5, "b", "2026-01-03"), target(5, "c", "2026-01-03"), target(6, "d", "2027")];
    assert_eq!(registered_popup_speech_target_for_pid(&targets, 5).unwrap().request_id, "c");
    assert!(registered_popup_speech_target_for_pid(&targets, -1).is_none());
    assert!(registered_popup_speech_target_for_pid(&targets, 7).is_none());
    let view = PopupSpeechTargetView::from(target(5, "a", "x"));
    assert_eq!(view.request_id, "a");
    assert_eq!(popup_target_pid_i32(&target(u32::MAX, "a", "x")), None);
    assert_eq!(popup_target_pid_i32(&target(9, "a", "x")), Some(9));
}

#[test]
fn processes_and_settings() {
    assert!(is_mcp_request_process(Some("/app/iterate --mcp-request /tmp/r.json")));
    assert!(!is_mcp_request_process(Some("/app/iterate --mcp-request")));
    assert!(!is_mcp_request_process(None));
    assert!(process_is_alive(3, 3, None));
    assert!(process_is_alive(4, 3, Some("cmd")));
    assert!(!process_is_alive(u32::MAX, 3, Some("cmd")));
    assert_eq!(normalize_optional_string(Some("  x ".to_string())), Some("x".to_string()));
    assert_eq!(normalize_optional_string(Some("  ".to_string())), None);
    assert!(overlay_creation_allowed(SpeechProcessRole::CanonicalGui, Some(OwnerEpoch(1))));
    assert!(!overlay_creation_allowed(SpeechProcessRole::CanonicalGui, None));
    assert!(!overlay_creation_allowed(SpeechProcessRole::Secondary, Some(OwnerEpoch(1))));
}

#[test]
fn runtime_records_keep_the_other_fields() {
    let mut state = SpeechRuntimeEventState::new();
    record_runtime_event(&mut state, "started");
    assert_eq!(state.last_event.as_deref(), Some("started"));
    assert!(state.last_event_at.is_some());
    record_paste_error(&mut state, "boom");
    assert_eq!(state.last_event.as_deref(), Some("paste-error"));
    assert_eq!(state.last_paste_status.as_deref(), Some("error"));
    assert_eq!(state.last_error.as_deref(), Some("boom"));
}

#[test]
fn powershell_commands_are_base64_utf16le() {
    assert_eq!(utf16le_bytes("A😀"), vec![0x41, 0, 0x3D, 0xD8, 0x00, 0xDE]);
    // "ab" in UTF-16LE is 61 00 62 00.
    assert_eq!(powershell_encoded_command("ab"), "YQBiAA==");
    assert_eq!(powershell_encoded_command(""), "");
}

#[test]
fn windows_recognizer_answers() {
    let ok = speech_capability(&ran(true, " Microsoft Huihui\tzh-CN \n", ""));
    assert!(ok.available);
    assert_eq!(ok.recognizer_name.as_deref(), Some("Microsoft Huihui"));
    assert_eq!(ok.culture.as_deref(), Some("zh-CN"));
    assert_eq!(ok.shortcut, "Shift+Ctrl+Space");
    let none = speech_capability(&ran(true, "", ""));
    assert!(!none.available);
    assert_eq!(none.details, "Windows 未安装可用的 System.Speech 识别器。");
    let failed = speech_capability(&ran(false, "", " denied "));
    assert_eq!(failed.details, "Windows 语音识别器探测失败：denied");
    let missing = speech_capability(&CommandOutcome::SpawnFailed("no shell".to_string()));
    assert_eq!(missing.details, "启动 Windows PowerShell 失败: no shell");
}

#[test]
fn windows_recognition_and_clipboard_answers() {
    assert_eq!(recognize_once(&ran(true, " 你好 \n", "")), Ok(Some("你好".to_string())));
    assert_eq!(recognize_once(&ran(true, "  ", "")), Ok(None));
    assert_eq!(recognize_once(&ran(false, "", "")), Err("Windows 语音识别失败".to_string()));
    assert_eq!(recognize_once(&ran(false, "", "x")), Err("Windows 语音识别失败: x".to_string()));
    assert_eq!(read_clipboard_text(&ran(true, " raw\n", "")), Some(" raw\n".to_string()));
    assert_eq!(read_clipboard_text(&ran(false, "x", "")), None);
    assert_eq!(
        write_clipboard_script("it's"),
        "$ErrorActionPreference='Stop'; Set-Clipboard -Value 'it''s'"
    );
    assert!(write_clipboard_text(&ran(true, "", "")).is_ok());
    assert_eq!(
        write_clipboard_text(&ran(false, "", " no ")).unwrap_err(),
        "写入 Windows 剪贴板失败: no"
    );
}

#[test]
fn every_owner_field_is_read_back_as_written() {
    let metadata = parse_fn_owner_metadata(
        "pid=4294967295\nbundle_id=com.example.app\nexe_path=/Applications/a b.app/x\nexe_mtime=17\nteam_id=TEAM\ncdhash=k=v\nacquired_at=2026-01-01T00:00:00+08:00\n",
    );
    let again = parse_fn_owner_metadata(&fn_owner_metadata_text(&metadata));
    assert_eq!(again.pid, Some(u32::MAX));
    assert_eq!(again.bundle_id.as_deref(), Some("com.example.app"));
    assert_eq!(again.exe_path.as_deref(), Some("/Applications/a b.app/x"));
    assert_eq!(again.exe_mtime.as_deref(), Some("17"));
    assert_eq!(again.team_id.as_deref(), Some("TEAM"));
    assert_eq!(again.cdhash.as_deref(), Some("k=v"));
    assert_eq!(again.acquired_at.as_deref(), Some("2026-01-01T00:00:00+08:00"));
}

#[test]
fn a_registered_target_is_found_by_its_process() {
    let mut targets = vec![target(8, "a", "9"), target(8, "b", "1")];
    upsert_registered_popup_speech_target(&mut targets, target(8, "b", "9"), &vec![8]).unwrap();
    assert_eq!(targets.len(), 2);
    assert_eq!(targets[1].request_id, "b");
    assert_eq!(targets.iter().filter(|t| t.request_id == "b").count(), 1);
    let found = registered_popup_speech_target_for_pid(&targets, 8).unwrap();
    assert_eq!(found.request_id, "b");
    cleanup_popup_speech_target_registry(&mut targets, &vec![8]);
    cleanup_popup_speech_target_registry(&mut targets, &vec![8]);
    assert_eq!(targets.len(), 2);
    remove_registered_popup_speech_target(&mut targets, 8, "b", &vec![8]);
    assert!(targets.iter().all(|t| t.request_id != "b"));
}

#[test]
fn popup_ipc_requests_are_checked_in_order() {
    let t = target(42, "req-1", "2024-01-01T00:00:00Z");
    assert_eq!(
        check_popup_ipc_request("bad", "tok", Some(&t), 42, "req-1", "main", false),
        Err("popup IPC token mismatch".to_string())
    );
    assert_eq!(
        check_popup_ipc_request("tok", "tok", None, 42, "req-1", "main", false),
        Err("popup IPC target is no longer active".to_string())
    );
    assert_eq!(
        check_popup_ipc_request("tok", "tok", Some(&t), 43, "req-1", "main", false),
        Err("popup IPC request does not match the active target".to_string())
    );
    assert_eq!(
        check_popup_ipc_request("tok", "tok", Some(&t), 42, "req-2", "main", false),
        Err("popup IPC request does not match the active target".to_string())
    );
    assert_eq!(
        check_popup_ipc_request("tok", "tok", Some(&t), 42, "req-1", "main", true),
        Err("popup IPC insert is already pending".to_string())
    );
    assert_eq!(check_popup_ipc_request("tok", "tok", Some(&t), 42, "req-1", "main", false), Ok(()));
}

#[test]
fn popup_ipc_acknowledgements_become_responses() {
    let ok = popup_ipc_ack_response(
        test_speech_identity(),
        "req-1".to_string(),
        "main".to_string(),
        "ins-1".to_string(),
        5,
        Ok(5),
    );
    assert!(ok.ok);
    assert_eq!(ok.text_len, Some(5));
    assert_eq!(ok.error, None);
    assert_eq!(ok.insert_id, "ins-1");
    let short = popup_ipc_ack_response(
        test_speech_identity(),
        "req-1".to_string(),
        "main".to_string(),
        "ins-1".to_string(),
        5,
        Ok(3),
    );
    assert!(!short.ok);
    assert_eq!(short.text_len, Some(3));
    assert_eq!(short.error.as_deref(), Some("popup IPC acknowledgement text length mismatch"));
    let late = popup_ipc_ack_response(
        test_speech_identity(),
        "req-1".to_string(),
        "main".to_string(),
        "ins-1".to_string(),
        5,
        Err("no answer".to_string()),
    );
    assert!(!late.ok);
    assert_eq!(late.text_len, None);
    assert_eq!(late.error.as_deref(), Some("popup IPC acknowledgement timed out: no answer"));
}

#[test]
fn registering_a_popup_input_needs_a_window_and_a_request() {
    assert_eq!(
        popup_speech_target_for(" ", "req", None, None, 7, "t".to_string(), None, None).err(),
        Some("window_label and request_id are required".to_string())
    );
    assert_eq!(
        popup_speech_target_for("main", "  ", None, None, 7, "t".to_string(), None, None).err(),
        Some("window_label and request_id are required".to_string())
    );
    let t = popup_speech_target_for(
        " popup-1 ",
        " req-9\n",
        Some("  ".to_string()),
        Some(" /tmp/p ".to_string()),
        7,
        "2024-05-01T00:00:00Z".to_string(),
        Some("/tmp/s.sock".to_string()),
        Some("tok".to_string()),
    )
    .unwrap();
    assert_eq!(t.window_label, "popup-1");
    assert_eq!(t.request_id, "req-9");
    assert_eq!(t.pid, Some(7));
    assert_eq!(t.reason, None);
    assert_eq!(t.project_path.as_deref(), Some("/tmp/p"));
    assert_eq!(t.updated_at.as_deref(), Some("2024-05-01T00:00:00Z"));
    assert_eq!(t.ipc_token.as_deref(), Some("tok"));
}

#[test]
fn withdrawing_a_request_clears_only_its_own_active_input() {
    let t = target(42, "req-1", "2024-01-01T00:00:00Z");
    assert!(withdrawal_clears_active(Some(&t), " req-1 "));
    assert!(withdrawal_clears_active(Some(&t), ""));
    assert!(!withdrawal_clears_active(Some(&t), "req-2"));
    assert!(!withdrawal_clears_active(None, "req-1"));
}

#[test]
fn the_latest_registered_popup_input_is_the_last_updated() {
    let registry = vec![
        target(1, "a", "2024-01-02T00:00:00Z"),
        target(2, "b", "2024-01-03T00:00:00Z"),
        target(3, "c", "2024-01-03T00:00:00Z"),
        target(4, "d", "2024-01-01T00:00:00Z"),
    ];
    assert_eq!(latest_registered_popup_target(&registry).map(|t| t.request_id.as_str()), Some("c"));
    assert!(latest_registered_popup_target(&vec![]).is_none());
    let w = speech_runtime_writeback(
        Some("app".to_string()),
        None,
        Some(9),
        None,
        None,
        Some(&registry[0]),
        &registry,
        Some("ok".to_string()),
        None,
    );
    assert_eq!(w.registered_popup_target_count, 4);
    assert_eq!(w.latest_registered_popup_pid, Some(3));
    assert_eq!(w.latest_registered_popup_request_id.as_deref(), Some("c"));
    assert_eq!(w.active_popup_request_id.as_deref(), Some("a"));
    assert_eq!(w.last_target_pid, Some(9));
}

fn owner_metadata(pid: u32, path: &str, cdhash: Option<&str>) -> FnOwnerMetadata {
    FnOwnerMetadata {
        pid: Some(pid),
        bundle_id: Some("com.kexin94yyds.iterate".to_string()),
        exe_path: Some(path.to_string()),
        exe_mtime: None,
        team_id: None,
        cdhash: cdhash.map(str::to_string),
        acquired_at: None,
    }
}

#[test]
fn the_speech_status_reports_the_recorded_owner() {
    let current = owner_metadata(10, "/Applications/iterate.app", Some("new"));
    let other = speech_runtime_owner(
        false,
        Some(owner_metadata(20, "/Applications/iterate.app", Some("old"))),
        &current,
        10,
        None,
    );
    assert_eq!(other.owner_pid, Some(20));
    assert!(!other.owner_is_current_process);
    assert_eq!(other.owner_matches_current_binary, Some(false));
    let own = speech_runtime_owner(true, None, &current, 10, Some("/tmp/fn.lock".to_string()));
    assert_eq!(own.owner_pid, Some(10));
    assert!(own.owner_is_current_process);
    assert_eq!(own.owner_matches_current_binary, Some(true));
    assert_eq!(own.lock_path.as_deref(), Some("/tmp/fn.lock"));
    let nobody = speech_runtime_owner(false, None, &current, 10, None);
    assert_eq!(nobody.owner_pid, None);
    assert_eq!(nobody.owner_matches_current_binary, None);
    assert_eq!(nobody.current_path.as_deref(), Some("/Applications/iterate.app"));
}

fn popup_of(d: &CaptureDecision) -> Option<(String, String, Option<i32>)> {
    match d {
        CaptureDecision::Retain(SpeechTarget::IteratePopupInput { window_label, request_id, pid }) => {
            Some((window_label.clone(), request_id.clone(), *pid))
        }
        _ => None,
    }
}

#[test]
fn capture_in_own_app_prefers_the_active_popup_of_the_frontmost_process() {
    let own = "com.kexin94yyds.iterate";
    let active = target(42, "req-active", "2026-01-01");
    let registry = vec![target(42, "req-old", "2025-01-01"), target(42, "req-new", "2026-02-01")];
    let d = capture_target_step(own, Some(42), Some(&active), &registry, false, None);
    assert_eq!(popup_of(&d), Some(("main".to_string(), "req-active".to_string(), Some(42))));
    let other = target(7, "req-other", "2026-01-01");
    let d = capture_target_step(own, Some(42), Some(&other), &registry, false, None);
    assert_eq!(popup_of(&d), Some(("main".to_string(), "req-new".to_string(), Some(42))));
}

#[test]
fn capture_in_own_app_preserves_or_captures_its_focus() {
    let own = "com.kexin94yyds.iterate";
    let held = SpeechTarget::ExternalApp { bundle_id: "com.apple.TextEdit".to_string(), pid: Some(99) };
    let none: Vec<PopupSpeechTarget> = Vec::new();
    assert!(matches!(capture_target_step(own, Some(42), None, &none, false, Some(&held)), CaptureDecision::Preserve));
    assert!(matches!(capture_target_step(own, Some(42), None, &none, true, Some(&held)), CaptureDecision::CaptureOwnFocus(42)));
    assert!(matches!(capture_target_step(own, Some(42), None, &none, false, None), CaptureDecision::CaptureOwnFocus(42)));
    let active = target(5, "req-active", "2026-01-01");
    let d = capture_target_step(own, None, Some(&active), &none, false, None);
    assert_eq!(popup_of(&d), Some(("main".to_string(), "req-active".to_string(), Some(5))));
    match capture_target_step(own, None, None, &none, false, Some(&held)) {
        CaptureDecision::ClearAndFail(m) => assert_eq!(m, "frontmost app is iterate but no target pid was found"),
        other => panic!("unexpected {other:?}"),
    }
}

#[test]
fn capture_in_an_external_app_needs_its_process() {
    let none: Vec<PopupSpeechTarget> = Vec::new();
    assert!(matches!(
        capture_target_step("com.apple.TextEdit", Some(77), None, &none, false, None),
        CaptureDecision::CaptureExternalFocus(77)
    ));
    match capture_target_step("com.apple.TextEdit", None, None, &none, false, None) {
        CaptureDecision::ClearAndFail(m) => assert_eq!(m, "frontmost external app did not provide a PID"),
        other => panic!("unexpected {other:?}"),
    }
}

#[test]
fn focus_capture_falls_back_only_outside_the_own_app_on_no_value() {
    let exact = capture_focus_result("com.apple.TextEdit", 77, false, None).unwrap();
    assert!(matches!(exact.0, SpeechTarget::ExternalApp { ref bundle_id, pid: Some(77) } if bundle_id == "com.apple.TextEdit"));
    assert_eq!(exact.1, FocusDispatchMode::Exact);
    let no_value = FocusedElementCaptureError::ax_copy(AX_ERROR_NO_VALUE);
    let fallback = capture_focus_result("com.apple.TextEdit", 77, false, Some(&no_value)).unwrap();
    assert_eq!(fallback.1, FocusDispatchMode::FrontmostPidFallback);
    assert_eq!(
        capture_focus_result("com.kexin94yyds.iterate", 42, true, Some(&no_value)).unwrap_err(),
        "failed to capture the focused input for pid 42: AXFocusedUIElement error=-25212"
    );
    let other = FocusedElementCaptureError::other("focused element pid mismatch");
    assert_eq!(
        capture_focus_result("com.apple.TextEdit", 77, false, Some(&other)).unwrap_err(),
        "failed to capture the focused input for pid 77: focused element pid mismatch"
    );
}
