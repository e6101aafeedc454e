use cunzhi::paste_writeback::{
    cross_process_writeback, paste_writeback, speech_writeback_route, ExternalWriteback,
    WritebackRoute, external_sender_mode, ExternalSenderMode, HelperOutcome, PasteAction, PasteEvent,
    PasteRequest, PasteRun, PasteStage,
};
use cunzhi::speech::{
    ExternalPasteDispatch, FocusDispatchMode, FocusedProcessInfo, PopupSpeechTarget, SpeechTarget,
};

fn external(bundle: &str, pid: Option<i32>) -> SpeechTarget {
    SpeechTarget::ExternalApp { bundle_id: bundle.to_string(), pid }
}

fn failure(action: PasteAction) -> (String, Option<String>, bool, bool) {
    match action {
        PasteAction::Fail(f) => (f.message, f.recorded, f.restore_clipboard, f.clear_target),
        other => panic!("unexpected {other:?}"),
    }
}

fn frontmost(bundle: &str, pid: i32) -> PasteEvent {
    PasteEvent::Frontmost { bundle_id: Some(bundle.to_string()), pid: Some(pid) }
}

fn focus(bundle: Option<&str>) -> PasteEvent {
    PasteEvent::Focus {
        focused: Some(FocusedProcessInfo {
            pid: 77,
            bundle_id: bundle.map(str::to_string),
            name: None,
        }),
        verified: Ok(()),
    }
}

fn ready(mode: FocusDispatchMode, sender: ExternalSenderMode) -> PasteRun {
    let target = external("com.apple.TextEdit", Some(77));
    let (mut run, action) = PasteRun::start("  你好  ", Some(&target), mode, sender);
    assert!(matches!(action, PasteAction::Run(PasteRequest::CheckIdentity)));
    assert_eq!(run.text, "你好");
    assert!(matches!(run.step(PasteEvent::Checked(true)), PasteAction::Run(PasteRequest::CheckAccessibility)));
    run
}

#[test]
fn sender_mode_follows_the_setting() {
    assert_eq!(external_sender_mode(Some("in_process")), ExternalSenderMode::InProcess);
    assert_eq!(external_sender_mode(Some("helper")), ExternalSenderMode::OneShotHelper);
    assert_eq!(external_sender_mode(None), ExternalSenderMode::OneShotHelper);
}

#[test]
fn a_paste_without_text_or_target_is_refused() {
    let target = external("com.apple.TextEdit", Some(77));
    let (run, action) = PasteRun::start("  \n", Some(&target), FocusDispatchMode::Exact, ExternalSenderMode::InProcess);
    assert_eq!(run.stage, PasteStage::Done);
    assert_eq!(failure(action), ("text is empty".to_string(), Some("text is empty".to_string()), false, false));
    let (_, action) = PasteRun::start("x", None, FocusDispatchMode::Exact, ExternalSenderMode::InProcess);
    assert_eq!(failure(action).1.as_deref(), Some("missing target"));
    let popup = SpeechTarget::IteratePopupInput {
        window_label: "main".to_string(),
        request_id: "r".to_string(),
        pid: Some(1),
    };
    let (_, action) = PasteRun::start("x", Some(&popup), FocusDispatchMode::Exact, ExternalSenderMode::InProcess);
    assert_eq!(failure(action).0, "弹窗输入不能走剪贴板写回，请使用 commit_speech_text。");
    let own = external("com.kexin94yyds.iterate", None);
    let (_, action) = PasteRun::start("x", Some(&own), FocusDispatchMode::Exact, ExternalSenderMode::InProcess);
    let (_, recorded, _, clear) = failure(action);
    assert_eq!(recorded.as_deref(), Some("own app target without pid: com.kexin94yyds.iterate"));
    assert!(clear);
    let (_, action) = PasteRun::start("x", Some(&external("com.apple.TextEdit", None)), FocusDispatchMode::Exact, ExternalSenderMode::InProcess);
    assert_eq!(
        failure(action),
        ("没有可复核的目标应用 PID，已取消写回。".to_string(), Some("external target without pid".to_string()), false, false)
    );
}

#[test]
fn an_in_process_paste_goes_through_every_check() {
    let mut run = ready(FocusDispatchMode::Exact, ExternalSenderMode::InProcess);
    assert!(matches!(run.step(PasteEvent::Checked(true)), PasteAction::Run(PasteRequest::WriteClipboard)));
    assert!(matches!(run.step(PasteEvent::ClipboardWritten(Ok(true))), PasteAction::Run(PasteRequest::Activate)));
    assert!(matches!(run.step(PasteEvent::Completed(Ok(()))), PasteAction::Run(PasteRequest::Frontmost)));
    assert!(matches!(run.step(frontmost("com.apple.TextEdit", 77)), PasteAction::Run(PasteRequest::RestoreFocus)));
    assert!(matches!(run.step(PasteEvent::Completed(Ok(()))), PasteAction::Run(PasteRequest::InspectFocus)));
    assert!(matches!(run.step(focus(Some("com.apple.TextEdit"))), PasteAction::Run(PasteRequest::Frontmost)));
    assert!(matches!(run.step(frontmost("com.apple.TextEdit", 77)), PasteAction::Run(PasteRequest::Post)));
    match run.step(PasteEvent::Completed(Ok(()))) {
        PasteAction::Finish { dispatch, status, restore_clipboard } => {
            assert_eq!(dispatch, ExternalPasteDispatch::DispatchedUnverified);
            assert_eq!(status, "paste-dispatched-unverified");
            assert!(restore_clipboard);
        }
        other => panic!("unexpected {other:?}"),
    }
    assert_eq!(run.stage, PasteStage::Done);
}

#[test]
fn a_paste_is_given_up_when_the_focus_moves_elsewhere() {
    let mut run = ready(FocusDispatchMode::FrontmostPidFallback, ExternalSenderMode::InProcess);
    let _ = run.step(PasteEvent::Checked(true));
    let _ = run.step(PasteEvent::ClipboardWritten(Ok(false)));
    let _ = run.step(PasteEvent::Completed(Ok(())));
    assert!(matches!(run.step(frontmost("com.apple.TextEdit", 77)), PasteAction::Run(PasteRequest::InspectFocus)));
    let _ = run.step(focus(Some("com.kexin94yyds.iterate")));
    let (message, recorded, restore, clear) = failure(run.step(frontmost("com.apple.TextEdit", 77)));
    assert_eq!(message, "目标输入焦点已经变化，已取消写回以避免输入到错误窗口。");
    assert_eq!(recorded.as_deref(), Some("paste dispatch aborted: focused-own-app"));
    assert!(!restore && clear);
}

#[test]
fn a_target_that_does_not_come_back_cancels_the_paste() {
    let mut run = ready(FocusDispatchMode::Exact, ExternalSenderMode::InProcess);
    let _ = run.step(PasteEvent::Checked(true));
    let _ = run.step(PasteEvent::ClipboardWritten(Ok(true)));
    let _ = run.step(PasteEvent::Completed(Ok(())));
    assert_eq!(
        failure(run.step(frontmost("com.apple.Safari", 77))),
        ("目标应用未成功切回，已取消写回。".to_string(), Some("target not frontmost after activate".to_string()), true, true)
    );
}

#[test]
fn a_lost_focus_cancels_the_paste() {
    let mut run = ready(FocusDispatchMode::Exact, ExternalSenderMode::InProcess);
    let _ = run.step(PasteEvent::Checked(true));
    let _ = run.step(PasteEvent::ClipboardWritten(Ok(true)));
    let _ = run.step(PasteEvent::Completed(Ok(())));
    let _ = run.step(frontmost("com.apple.TextEdit", 77));
    let (message, recorded, restore, _) = failure(run.step(PasteEvent::Completed(Err("AX -25202".to_string()))));
    assert_eq!(message, "原输入框焦点已经失效，已取消写回。请点回输入框后重新按 Fn。");
    assert_eq!(recorded.as_deref(), Some("failed to restore captured focused element: AX -25202"));
    assert!(restore);
}

#[test]
fn the_helper_sends_or_rejects_the_paste() {
    let mut run = ready(FocusDispatchMode::FrontmostPidFallback, ExternalSenderMode::OneShotHelper);
    assert!(matches!(run.step(PasteEvent::Checked(true)), PasteAction::Run(PasteRequest::PrepareHelper)));
    let _ = run.step(PasteEvent::Completed(Ok(())));
    let _ = run.step(PasteEvent::ClipboardWritten(Ok(true)));
    let _ = run.step(PasteEvent::Completed(Ok(())));
    let _ = run.step(frontmost("com.apple.TextEdit", 77));
    let _ = run.step(focus(None));
    assert!(matches!(run.step(frontmost("com.apple.TextEdit", 77)), PasteAction::Run(PasteRequest::RunHelper)));
    let (message, recorded, restore, clear) =
        failure(run.step(PasteEvent::Helper(HelperOutcome::RejectedBeforePost("pid changed".to_string()))));
    assert_eq!(message, "目标或写回身份在发送前发生变化，已取消写回。");
    assert_eq!(recorded.as_deref(), Some("paste helper rejected before post: pid changed"));
    assert!(restore && clear);
}

#[test]
fn missing_permission_and_helper_errors_stop_before_the_clipboard() {
    let mut run = ready(FocusDispatchMode::Exact, ExternalSenderMode::OneShotHelper);
    assert_eq!(
        failure(run.step(PasteEvent::Checked(false))).1.as_deref(),
        Some("missing accessibility permission")
    );
    let mut run = ready(FocusDispatchMode::Exact, ExternalSenderMode::OneShotHelper);
    let _ = run.step(PasteEvent::Checked(true));
    assert_eq!(
        failure(run.step(PasteEvent::Completed(Err("no helper".to_string())))),
        ("no helper".to_string(), None, false, false)
    );
    let target = external("com.apple.TextEdit", Some(77));
    let (mut run, _) = PasteRun::start("x", Some(&target), FocusDispatchMode::Exact, ExternalSenderMode::InProcess);
    assert_eq!(failure(run.step(PasteEvent::Checked(false))).3, true);
}

fn popup(pid: Option<i32>) -> SpeechTarget {
    SpeechTarget::IteratePopupInput { window_label: "main".to_string(), request_id: "req".to_string(), pid }
}

fn registered(pid: u32, request_id: &str, socket: Option<&str>, token: Option<&str>) -> PopupSpeechTarget {
    PopupSpeechTarget {
        window_label: "main".to_string(),
        request_id: request_id.to_string(),
        pid: Some(pid),
        project_path: None,
        reason: None,
        updated_at: Some("2026-01-01".to_string()),
        ipc_socket_path: socket.map(str::to_string),
        ipc_token: token.map(str::to_string),
    }
}

#[test]
fn the_final_text_goes_where_the_target_is() {
    let none: Vec<PopupSpeechTarget> = Vec::new();
    assert_eq!(speech_writeback_route(" ", Some(&popup(Some(1))), Some(1), &none).unwrap_err(), "text is empty");
    assert_eq!(speech_writeback_route("x", None, Some(1), &none).unwrap_err(), "missing speech target");
    assert!(matches!(
        speech_writeback_route("x", Some(&external("com.apple.TextEdit", Some(7))), Some(1), &none),
        Ok(WritebackRoute::Paste)
    ));
    match speech_writeback_route("  hi ", Some(&popup(Some(1))), Some(1), &none) {
        Ok(WritebackRoute::LocalPopup { window_label, request_id, text }) => {
            assert_eq!((window_label.as_str(), request_id.as_str(), text.as_str()), ("main", "req", "hi"));
        }
        other => panic!("unexpected {other:?}"),
    }
}

#[test]
fn another_process_popup_needs_its_registered_channel() {
    let none: Vec<PopupSpeechTarget> = Vec::new();
    assert_eq!(
        speech_writeback_route("x", Some(&popup(None)), Some(1), &none).unwrap_err(),
        "cross-process popup target pid is missing"
    );
    assert_eq!(
        speech_writeback_route("x", Some(&popup(Some(9))), Some(1), &none).unwrap_err(),
        "cross-process popup target is no longer registered"
    );
    let other = vec![registered(9, "other", Some("/s"), Some("t"))];
    assert_eq!(
        speech_writeback_route("x", Some(&popup(Some(9))), Some(1), &other).unwrap_err(),
        "cross-process popup endpoint does not match the captured target"
    );
    let no_socket = vec![registered(9, "req", None, Some("t"))];
    assert_eq!(
        speech_writeback_route("x", Some(&popup(Some(9))), Some(1), &no_socket).unwrap_err(),
        "cross-process popup IPC socket is missing"
    );
    let no_token = vec![registered(9, "req", Some("/s"), None)];
    assert_eq!(
        speech_writeback_route("x", Some(&popup(Some(9))), Some(1), &no_token).unwrap_err(),
        "cross-process popup IPC token is missing"
    );
    let ok = vec![registered(9, "req", Some("/s"), Some("t"))];
    match speech_writeback_route(" hi ", Some(&popup(Some(9))), Some(1), &ok) {
        Ok(WritebackRoute::CrossProcess { text, socket_path, token, .. }) => {
            assert_eq!((text.as_str(), socket_path.as_str(), token.as_str()), ("hi", "/s", "t"));
        }
        other => panic!("unexpected {other:?}"),
    }
}

#[test]
fn write_back_outcomes_are_counted() {
    assert_eq!(paste_writeback(ExternalPasteDispatch::DispatchedUnverified), ExternalWriteback::DispatchedUnverified);
    assert_eq!(paste_writeback(ExternalPasteDispatch::UnknownAfterDispatch), ExternalWriteback::UnknownAfterDispatch);
    assert_eq!(cross_process_writeback(Ok(())), Ok(ExternalWriteback::Acknowledged));
    assert_eq!(cross_process_writeback(Err((true, "late".to_string()))), Ok(ExternalWriteback::UnknownAfterDispatch));
    assert_eq!(cross_process_writeback(Err((false, "refused".to_string()))), Err("refused".to_string()));
}
