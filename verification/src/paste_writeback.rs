//! Writing dictated text back into an external application by pasting. A paste goes
//! through checks, one outside answer at a time: the target's identity, the accessibility
//! permission, the sender, the clipboard, the activation of the target, its focus, and the
//! dispatch. The run asks for each piece of outside work, the caller does it and hands back
//! what came of it, and the run decides what comes next. Every failure says which message
//! the user sees, what the status records, and whether the clipboard and the held target
//! are restored and cleared.
use vstd::prelude::*;

use crate::speech::{
    latest_of_pid, own_bundle_id, paste_route_spec, registered_popup_speech_target_for_pid,
    select_paste_dispatch_route, so, ExternalPasteDispatch, FocusDispatchMode, FocusedProcessInfo,
    PasteDispatchRoute, PopupSpeechTarget, SpeechTarget,
};
use crate::text::{append_str, chars_eq_str, chars_of, string_from, trim, trim_chars};

verus! {

broadcast use vstd::string::group_string_axioms;

/// How the paste is sent once everything checks out.
#[derive(Clone, Copy, Debug, PartialEq, Eq, Structural)]
pub enum ExternalSenderMode {
    /// A helper process started for this one paste posts it.
    OneShotHelper,
    /// This process posts it.
    InProcess,
}

/// The sender chosen by the `ITERATE_SPEECH_EXTERNAL_SENDER` setting: `in_process` posts
/// from this process, anything else (or nothing) through the one-shot helper.
pub fn external_sender_mode(setting: Option<&str>) -> (res: ExternalSenderMode)
    ensures
        res == (if setting matches Some(s) && s@ == "in_process"@ {
            ExternalSenderMode::InProcess
        } else {
            ExternalSenderMode::OneShotHelper
        }),
{
    match setting {
        Some(s) => {
            if chars_eq_str(&chars_of(s), "in_process") {
                ExternalSenderMode::InProcess
            } else {
                ExternalSenderMode::OneShotHelper
            }
        },
        None => ExternalSenderMode::OneShotHelper,
    }
}

/// Where a paste run stands: which answer it waits for.
#[derive(Clone, Copy, Debug, PartialEq, Eq, Structural)]
pub enum PasteStage {
    Identity,
    Accessibility,
    Sender,
    Clipboard,
    Activate,
    Frontmost,
    RestoreFocus,
    InspectFocus,
    BeforeDispatch,
    Dispatch,
    Done,
}

/// The outside work a paste run asks for next.
#[derive(Clone, Copy, Debug, PartialEq, Eq, Structural)]
pub enum PasteRequest {
    /// Does the target's process still belong to its bundle?
    CheckIdentity,
    /// Is this process trusted for accessibility?
    CheckAccessibility,
    /// Prepares the helper's request for the target.
    PrepareHelper,
    /// Reads the clipboard, keeps what it held, and writes the run's text to it.
    WriteClipboard,
    /// Activates the target's bundle, then waits 180 ms.
    Activate,
    /// Reads the frontmost application's bundle and process.
    Frontmost,
    /// Gives the focus back to the captured input.
    RestoreFocus,
    /// Waits 80 ms, reads the focused process, and checks that the captured input still
    /// has the focus when the focus was captured exactly.
    InspectFocus,
    /// Posts the paste from this process.
    Post,
    /// Hands the paste to the one-shot helper.
    RunHelper,
}

/// How the one-shot helper's paste ended.
#[derive(Debug)]
pub enum HelperOutcome {
    DispatchedUnverified,
    RejectedBeforePost(String),
    UnknownAfterDispatch,
}

/// What came of the outside work that the run asked for.
#[derive(Debug)]
pub enum PasteEvent {
    /// The answer of a check.
    Checked(bool),
    /// The work was done, or its error.
    Completed(Result<(), String>),
    /// The text is on the clipboard (and whether the clipboard held text before), or the
    /// error of writing it.
    ClipboardWritten(Result<bool, String>),
    /// The frontmost application, as far as it could be read.
    Frontmost { bundle_id: Option<String>, pid: Option<i32> },
    /// The focused process, if it could be read, and the check of the captured input.
    Focus { focused: Option<FocusedProcessInfo>, verified: Result<(), String> },
    /// How the helper's paste ended.
    Helper(HelperOutcome),
}

/// A paste that is given up: the message for the user, what the status records as the
/// paste error (if anything), whether the clipboard gets back what it held before, and
/// whether the held target is cleared.
#[derive(Debug)]
pub struct PasteFailure {
    pub message: String,
    pub recorded: Option<String>,
    pub restore_clipboard: bool,
    pub clear_target: bool,
}

/// What the caller does next for a paste run.
#[derive(Debug)]
pub enum PasteAction {
    /// Does this work and hands back what came of it.
    Run(PasteRequest),
    /// The paste is given up.
    Fail(PasteFailure),
    /// The paste was sent: the status records `status`, the clipboard gets back what it
    /// held before (after 1200 ms) when `restore_clipboard`, and the held target is cleared.
    Finish { dispatch: ExternalPasteDispatch, status: String, restore_clipboard: bool },
}

/// A paste run: the text and the target it writes to, and what it has learnt so far.
#[derive(Debug)]
pub struct PasteRun {
    pub stage: PasteStage,
    /// The text to paste, trimmed.
    pub text: String,
    pub bundle_id: String,
    pub pid: i32,
    /// The target is a window of this application.
    pub own_app: bool,
    pub focus_mode: FocusDispatchMode,
    pub sender: ExternalSenderMode,
    /// The clipboard held text before the paste wrote to it.
    pub previous_held: bool,
    /// The focused process read just before the dispatch.
    pub focused: Option<FocusedProcessInfo>,
}

/// Is `a` the request for `r`?
pub open spec fn requests(a: PasteAction, r: PasteRequest) -> bool {
    a matches PasteAction::Run(q) && q == r
}

/// Does `a` give the paste up with this message, recorded error, clipboard restore and
/// target clearing?
pub open spec fn fails_with(
    a: PasteAction,
    message: Seq<char>,
    recorded: Option<Seq<char>>,
    restore: bool,
    clear: bool,
) -> bool {
    &&& a matches PasteAction::Fail(f)
    &&& f.message@ == message
    &&& so(f.recorded) == recorded
    &&& f.restore_clipboard == restore
    &&& f.clear_target == clear
}

/// Does `a` end the paste as sent, with this dispatch, status and clipboard restore?
pub open spec fn finishes(a: PasteAction, dispatch: ExternalPasteDispatch, status: Seq<char>, restore: bool) -> bool {
    a matches PasteAction::Finish { dispatch: d, status: s, restore_clipboard: r } && d == dispatch
        && s@ == status && r == restore
}

/// Is the frontmost application the run's target?
pub open spec fn is_target(run: PasteRun, bundle_id: Option<String>, pid: Option<i32>) -> bool {
    so(bundle_id) == Some(run.bundle_id@) && pid == Some(run.pid)
}

/// The bundle of the focused process, as the paste route reads it.
pub open spec fn focused_bundle(f: Option<FocusedProcessInfo>) -> Option<Option<Seq<char>>> {
    match f {
        Some(info) => Some(so(info.bundle_id)),
        None => None,
    }
}

/// Is `e` the kind of answer that a run at `run.stage` waits for?
pub open spec fn event_fits(run: PasteRun, e: PasteEvent) -> bool {
    match run.stage {
        PasteStage::Identity | PasteStage::Accessibility => e is Checked,
        PasteStage::Sender | PasteStage::Activate | PasteStage::RestoreFocus => e is Completed,
        PasteStage::Clipboard => e is ClipboardWritten,
        PasteStage::Frontmost | PasteStage::BeforeDispatch => e is Frontmost,
        PasteStage::InspectFocus => e is Focus,
        PasteStage::Dispatch => if run.sender == ExternalSenderMode::InProcess {
            e is Completed
        } else {
            e is Helper
        },
        PasteStage::Done => false,
    }
}

/// The target, text, process and modes of a run stay as they were.
pub open spec fn same_paste(a: PasteRun, b: PasteRun) -> bool {
    &&& a.text@ == b.text@
    &&& a.bundle_id@ == b.bundle_id@
    &&& a.pid == b.pid
    &&& a.own_app == b.own_app
    &&& a.focus_mode == b.focus_mode
    &&& a.sender == b.sender
}

/// The request that a run without an exactly captured focus, or with the focus given back,
/// makes after the target came to the front.
pub open spec fn after_frontmost(run: PasteRun) -> PasteStage {
    if run.focus_mode == FocusDispatchMode::Exact {
        PasteStage::RestoreFocus
    } else {
        PasteStage::InspectFocus
    }
}

/// One step of a paste run: from `before`, given the answer `e`, to `after` and the next
/// action.
pub open spec fn paste_step(before: PasteRun, after: PasteRun, e: PasteEvent, a: PasteAction) -> bool {
    let held = before.previous_held;
    match before.stage {
        PasteStage::Identity => match e {
            PasteEvent::Checked(ok) => if ok {
                after.stage == PasteStage::Accessibility && requests(a, PasteRequest::CheckAccessibility)
            } else {
                after.stage == PasteStage::Done && fails_with(
                    a,
                    "目标应用进程已变化，已取消写回。"@,
                    Some("captured target pid no longer matches bundle"@),
                    false,
                    true,
                )
            },
            _ => false,
        },
        PasteStage::Accessibility => match e {
            PasteEvent::Checked(ok) => if !ok {
                after.stage == PasteStage::Done && fails_with(
                    a,
                    "缺少辅助功能(Accessibility)权限，无法写回文本。请在 系统设置 → 隐私与安全性 → 辅助功能 中允许 iterate。"@,
                    Some("missing accessibility permission"@),
                    false,
                    false,
                )
            } else if before.sender == ExternalSenderMode::OneShotHelper {
                after.stage == PasteStage::Sender && requests(a, PasteRequest::PrepareHelper)
            } else {
                after.stage == PasteStage::Clipboard && requests(a, PasteRequest::WriteClipboard)
            },
            _ => false,
        },
        PasteStage::Sender => match e {
            PasteEvent::Completed(Err(m)) => after.stage == PasteStage::Done && fails_with(
                a,
                m@,
                None,
                false,
                false,
            ),
            PasteEvent::Completed(Ok(())) => after.stage == PasteStage::Clipboard && requests(
                a,
                PasteRequest::WriteClipboard,
            ),
            _ => false,
        },
        PasteStage::Clipboard => match e {
            PasteEvent::ClipboardWritten(Err(m)) => after.stage == PasteStage::Done && fails_with(
                a,
                m@,
                Some(m@),
                false,
                false,
            ),
            PasteEvent::ClipboardWritten(Ok(had)) => after.previous_held == had && if before.own_app {
                after.stage == PasteStage::Frontmost && requests(a, PasteRequest::Frontmost)
            } else {
                after.stage == PasteStage::Activate && requests(a, PasteRequest::Activate)
            },
            _ => false,
        },
        PasteStage::Activate => match e {
            PasteEvent::Completed(Err(m)) => after.stage == PasteStage::Done && fails_with(
                a,
                m@,
                Some(m@),
                held,
                true,
            ),
            PasteEvent::Completed(Ok(())) => after.stage == PasteStage::Frontmost && requests(
                a,
                PasteRequest::Frontmost,
            ),
            _ => false,
        },
        PasteStage::Frontmost => match e {
            PasteEvent::Frontmost { bundle_id, pid } => if is_target(before, bundle_id, pid) {
                after.stage == after_frontmost(before) && requests(
                    a,
                    if before.focus_mode == FocusDispatchMode::Exact {
                        PasteRequest::RestoreFocus
                    } else {
                        PasteRequest::InspectFocus
                    },
                )
            } else {
                after.stage == PasteStage::Done && fails_with(
                    a,
                    "目标应用未成功切回，已取消写回。"@,
                    Some("target not frontmost after activate"@),
                    held,
                    true,
                )
            },
            _ => false,
        },
        PasteStage::RestoreFocus => match e {
            PasteEvent::Completed(Err(m)) => after.stage == PasteStage::Done && fails_with(
                a,
                "原输入框焦点已经失效，已取消写回。请点回输入框后重新按 Fn。"@,
                Some("failed to restore captured focused element: "@ + m@),
                held,
                true,
            ),
            PasteEvent::Completed(Ok(())) => after.stage == PasteStage::InspectFocus && requests(
                a,
                PasteRequest::InspectFocus,
            ),
            _ => false,
        },
        PasteStage::InspectFocus => match e {
            PasteEvent::Focus { focused, verified } => if before.focus_mode
                == FocusDispatchMode::Exact && verified is Err {
                after.stage == PasteStage::Done && fails_with(
                    a,
                    "原输入框在写回前再次失焦，已取消写回。请点回输入框后重试。"@,
                    Some("focused element changed before dispatch: "@ + verified->Err_0@),
                    held,
                    true,
                )
            } else {
                &&& after.stage == PasteStage::BeforeDispatch
                &&& focused_bundle(after.focused) == focused_bundle(focused)
                &&& requests(a, PasteRequest::Frontmost)
            },
            _ => false,
        },
        PasteStage::BeforeDispatch => match e {
            PasteEvent::Frontmost { bundle_id, pid } => if !is_target(before, bundle_id, pid) {
                after.stage == PasteStage::Done && fails_with(
                    a,
                    "目标应用在写回前发生变化，已取消写回。"@,
                    Some("target changed before dispatch"@),
                    held,
                    true,
                )
            } else {
                match paste_route_spec(pid, focused_bundle(before.focused), before.bundle_id@) {
                    Some(reason) => after.stage == PasteStage::Done && fails_with(
                        a,
                        "目标输入焦点已经变化，已取消写回以避免输入到错误窗口。"@,
                        Some("paste dispatch aborted: "@ + reason),
                        held,
                        true,
                    ),
                    None => after.stage == PasteStage::Dispatch && requests(
                        a,
                        if before.sender == ExternalSenderMode::InProcess {
                            PasteRequest::Post
                        } else {
                            PasteRequest::RunHelper
                        },
                    ),
                }
            },
            _ => false,
        },
        PasteStage::Dispatch => after.stage == PasteStage::Done && match e {
            PasteEvent::Completed(Err(m)) => fails_with(a, m@, Some(m@), held, true),
            PasteEvent::Completed(Ok(())) => finishes(
                a,
                ExternalPasteDispatch::DispatchedUnverified,
                "paste-dispatched-unverified"@,
                held,
            ),
            PasteEvent::Helper(HelperOutcome::DispatchedUnverified) => finishes(
                a,
                ExternalPasteDispatch::DispatchedUnverified,
                "paste-dispatched-unverified"@,
                held,
            ),
            PasteEvent::Helper(HelperOutcome::RejectedBeforePost(reason)) => fails_with(
                a,
                "目标或写回身份在发送前发生变化，已取消写回。"@,
                Some("paste helper rejected before post: "@ + reason@),
                held,
                true,
            ),
            PasteEvent::Helper(HelperOutcome::UnknownAfterDispatch) => finishes(
                a,
                ExternalPasteDispatch::UnknownAfterDispatch,
                "paste-unknown-after-dispatch"@,
                held,
            ),
            _ => false,
        },
        PasteStage::Done => false,
    }
}

/// An owned copy of a text.
fn owned(s: &str) -> (res: String)
    ensures
        res@ == s@,
{
    string_from(&chars_of(s))
}

/// `prefix` followed by `s`.
fn joined(prefix: &str, s: &str) -> (res: String)
    ensures
        res@ == prefix@ + s@,
{
    let mut m = chars_of(prefix);
    append_str(&mut m, s);
    string_from(&m)
}

/// Gives the paste up.
fn fail(message: String, recorded: Option<String>, restore: bool, clear: bool) -> (res: PasteAction)
    ensures
        fails_with(res, message@, so(recorded), restore, clear),
{
    PasteAction::Fail(
        PasteFailure { message, recorded, restore_clipboard: restore, clear_target: clear },
    )
}

/// Ends the paste as sent.
fn finish(dispatch: ExternalPasteDispatch, status: &str, restore: bool) -> (res: PasteAction)
    ensures
        finishes(res, dispatch, status@, restore),
{
    PasteAction::Finish { dispatch, status: owned(status), restore_clipboard: restore }
}

impl PasteRun {
    /// Starts a paste of `text` into the held `target`, whose focus was captured as
    /// `focus_mode`, sent by `sender`. Empty text, no target, a popup input, or a target
    /// without a process is refused at once; else the run asks whether the target's
    /// process still belongs to its bundle.
    pub fn start(
        text: &str,
        target: Option<&SpeechTarget>,
        focus_mode: FocusDispatchMode,
        sender: ExternalSenderMode,
    ) -> (res: (PasteRun, PasteAction))
        ensures
            trim(text@).len() == 0 ==> res.0.stage == PasteStage::Done && fails_with(
                res.1,
                "text is empty"@,
                Some("text is empty"@),
                false,
                false,
            ),
            trim(text@).len() > 0 ==> match target {
                None => res.0.stage == PasteStage::Done && fails_with(
                    res.1,
                    "没有可写回的目标应用。请先聚焦外部输入框再按 Fn。"@,
                    Some("missing target"@),
                    false,
                    true,
                ),
                Some(t) => match *t {
                    SpeechTarget::IteratePopupInput { .. } => res.0.stage == PasteStage::Done
                        && fails_with(
                        res.1,
                        "弹窗输入不能走剪贴板写回，请使用 commit_speech_text。"@,
                        Some("target is not an external app"@),
                        false,
                        true,
                    ),
                    SpeechTarget::ExternalApp { bundle_id, pid } => if bundle_id@ == own_bundle_id()
                        && pid is None {
                        res.0.stage == PasteStage::Done && fails_with(
                            res.1,
                            "没有可写回的 iterate 窗口 PID。请先聚焦输入框再按 Fn。"@,
                            Some("own app target without pid: "@ + bundle_id@),
                            false,
                            true,
                        )
                    } else if pid is None {
                        res.0.stage == PasteStage::Done && fails_with(
                            res.1,
                            "没有可复核的目标应用 PID，已取消写回。"@,
                            Some("external target without pid"@),
                            false,
                            false,
                        )
                    } else {
                        &&& res.0.stage == PasteStage::Identity
                        &&& requests(res.1, PasteRequest::CheckIdentity)
                        &&& res.0.text@ == trim(text@)
                        &&& res.0.bundle_id@ == bundle_id@
                        &&& Some(res.0.pid) == pid
                        &&& res.0.own_app == (bundle_id@ == own_bundle_id())
                        &&& res.0.focus_mode == focus_mode
                        &&& res.0.sender == sender
                        &&& !res.0.previous_held
                        &&& res.0.focused is None
                    },
                },
            },
    {
        let trimmed_chars = trim_chars(&chars_of(text));
        let empty = trimmed_chars.len() == 0;
        let trimmed = string_from(&trimmed_chars);
        let done = |message: String, recorded: Option<String>, clear: bool| -> (r: (
            PasteRun,
            PasteAction,
        ))
            ensures
                r.0.stage == PasteStage::Done,
                fails_with(r.1, message@, so(recorded), false, clear),
        {
            (
                PasteRun {
                    stage: PasteStage::Done,
                    text: String::new(),
                    bundle_id: String::new(),
                    pid: 0,
                    own_app: false,
                    focus_mode,
                    sender,
                    previous_held: false,
                    focused: None,
                },
                fail(message, recorded, false, clear),
            )
        };
        if empty {
            return done(owned("text is empty"), Some(owned("text is empty")), false);
        }
        let t = match target {
            None => {
                return done(
                    owned("没有可写回的目标应用。请先聚焦外部输入框再按 Fn。"),
                    Some(owned("missing target")),
                    true,
                );
            },
            Some(t) => t,
        };
        match t {
            SpeechTarget::IteratePopupInput { .. } => done(
                owned("弹窗输入不能走剪贴板写回，请使用 commit_speech_text。"),
                Some(owned("target is not an external app")),
                true,
            ),
            SpeechTarget::ExternalApp { bundle_id, pid } => {
                let own_app = crate::speech::is_own_bundle_id(bundle_id.as_str());
                match pid {
                    None => {
                        if own_app {
                            done(
                                owned("没有可写回的 iterate 窗口 PID。请先聚焦输入框再按 Fn。"),
                                Some(joined("own app target without pid: ", bundle_id.as_str())),
                                true,
                            )
                        } else {
                            done(
                                owned("没有可复核的目标应用 PID，已取消写回。"),
                                Some(owned("external target without pid")),
                                false,
                            )
                        }
                    },
                    Some(p) => (
                        PasteRun {
                            stage: PasteStage::Identity,
                            text: trimmed,
                            bundle_id: owned(bundle_id.as_str()),
                            pid: *p,
                            own_app,
                            focus_mode,
                            sender,
                            previous_held: false,
                            focused: None,
                        },
                        PasteAction::Run(PasteRequest::CheckIdentity),
                    ),
                }
            },
        }
    }

    /// Whether the frontmost application is this run's target.
    fn frontmost_is_target(&self, bundle_id: &Option<String>, pid: Option<i32>) -> (res: bool)
        ensures
            res == is_target(*self, *bundle_id, pid),
    {
        match bundle_id {
            Some(b) => pid == Some(self.pid) && chars_eq_str(&chars_of(b.as_str()), self.bundle_id.as_str()),
            None => false,
        }
    }

    /// Takes what came of the requested work and decides what comes next.
    pub fn step(&mut self, event: PasteEvent) -> (res: PasteAction)
        requires
            event_fits(*old(self), event),
        ensures
            paste_step(*old(self), *final(self), event, res),
            same_paste(*old(self), *final(self)),
            old(self).stage != PasteStage::Clipboard ==> final(self).previous_held == old(
                self,
            ).previous_held,
            old(self).stage != PasteStage::InspectFocus ==> focused_bundle(final(self).focused)
                == focused_bundle(old(self).focused),
    {
        let held = self.previous_held;
        match self.stage {
            PasteStage::Identity => match event {
                PasteEvent::Checked(ok) => {
                    if ok {
                        self.stage = PasteStage::Accessibility;
                        PasteAction::Run(PasteRequest::CheckAccessibility)
                    } else {
                        self.stage = PasteStage::Done;
                        fail(
                            owned("目标应用进程已变化，已取消写回。"),
                            Some(owned("captured target pid no longer matches bundle")),
                            false,
                            true,
                        )
                    }
                },
                _ => PasteAction::Run(PasteRequest::CheckIdentity),
            },
            PasteStage::Accessibility => match event {
                PasteEvent::Checked(ok) => {
                    if !ok {
                        self.stage = PasteStage::Done;
                        fail(
                            owned(
                                "缺少辅助功能(Accessibility)权限，无法写回文本。请在 系统设置 → 隐私与安全性 → 辅助功能 中允许 iterate。",
                            ),
                            Some(owned("missing accessibility permission")),
                            false,
                            false,
                        )
                    } else if self.sender == ExternalSenderMode::OneShotHelper {
                        self.stage = PasteStage::Sender;
                        PasteAction::Run(PasteRequest::PrepareHelper)
                    } else {
                        self.stage = PasteStage::Clipboard;
                        PasteAction::Run(PasteRequest::WriteClipboard)
                    }
                },
                _ => PasteAction::Run(PasteRequest::CheckAccessibility),
            },
            PasteStage::Sender => match event {
                PasteEvent::Completed(Err(m)) => {
                    self.stage = PasteStage::Done;
                    fail(m, None, false, false)
                },
                _ => {
                    self.stage = PasteStage::Clipboard;
                    PasteAction::Run(PasteRequest::WriteClipboard)
                },
            },
            PasteStage::Clipboard => match event {
                PasteEvent::ClipboardWritten(Err(m)) => {
                    self.stage = PasteStage::Done;
                    let recorded = owned(m.as_str());
                    fail(m, Some(recorded), false, false)
                },
                PasteEvent::ClipboardWritten(Ok(had)) => {
                    self.previous_held = had;
                    if self.own_app {
                        self.stage = PasteStage::Frontmost;
                        PasteAction::Run(PasteRequest::Frontmost)
                    } else {
                        self.stage = PasteStage::Activate;
                        PasteAction::Run(PasteRequest::Activate)
                    }
                },
                _ => PasteAction::Run(PasteRequest::WriteClipboard),
            },
            PasteStage::Activate => match event {
                PasteEvent::Completed(Err(m)) => {
                    self.stage = PasteStage::Done;
                    let recorded = owned(m.as_str());
                    fail(m, Some(recorded), held, true)
                },
                _ => {
                    self.stage = PasteStage::Frontmost;
                    PasteAction::Run(PasteRequest::Frontmost)
                },
            },
            PasteStage::Frontmost => match event {
                PasteEvent::Frontmost { bundle_id, pid } => {
                    if self.frontmost_is_target(&bundle_id, pid) {
                        if self.focus_mode == FocusDispatchMode::Exact {
                            self.stage = PasteStage::RestoreFocus;
                            PasteAction::Run(PasteRequest::RestoreFocus)
                        } else {
                            self.stage = PasteStage::InspectFocus;
                            PasteAction::Run(PasteRequest::InspectFocus)
                        }
                    } else {
                        self.stage = PasteStage::Done;
                        fail(
                            owned("目标应用未成功切回，已取消写回。"),
                            Some(owned("target not frontmost after activate")),
                            held,
                            true,
                        )
                    }
                },
                _ => PasteAction::Run(PasteRequest::Frontmost),
            },
            PasteStage::RestoreFocus => match event {
                PasteEvent::Completed(Err(m)) => {
                    self.stage = PasteStage::Done;
                    fail(
                        owned("原输入框焦点已经失效，已取消写回。请点回输入框后重新按 Fn。"),
                        Some(joined("failed to restore captured focused element: ", m.as_str())),
                        held,
                        true,
                    )
                },
                _ => {
                    self.stage = PasteStage::InspectFocus;
                    PasteAction::Run(PasteRequest::InspectFocus)
                },
            },
            PasteStage::InspectFocus => match event {
                PasteEvent::Focus { focused, verified } => {
                    match verified {
                        Err(m) => {
                            if self.focus_mode == FocusDispatchMode::Exact {
                                self.stage = PasteStage::Done;
                                return fail(
                                    owned("原输入框在写回前再次失焦，已取消写回。请点回输入框后重试。"),
                                    Some(
                                        joined("focused element changed before dispatch: ", m.as_str()),
                                    ),
                                    held,
                                    true,
                                );
                            }
                        },
                        Ok(()) => {},
                    }
                    self.focused = focused;
                    self.stage = PasteStage::BeforeDispatch;
                    PasteAction::Run(PasteRequest::Frontmost)
                },
                _ => PasteAction::Run(PasteRequest::InspectFocus),
            },
            PasteStage::BeforeDispatch => match event {
                PasteEvent::Frontmost { bundle_id, pid } => {
                    if !self.frontmost_is_target(&bundle_id, pid) {
                        self.stage = PasteStage::Done;
                        return fail(
                            owned("目标应用在写回前发生变化，已取消写回。"),
                            Some(owned("target changed before dispatch")),
                            held,
                            true,
                        );
                    }
                    let route = select_paste_dispatch_route(
                        pid,
                        self.focused.as_ref(),
                        self.bundle_id.as_str(),
                        self.focus_mode,
                    );
                    match route {
                        PasteDispatchRoute::Abort(reason) => {
                            self.stage = PasteStage::Done;
                            fail(
                                owned("目标输入焦点已经变化，已取消写回以避免输入到错误窗口。"),
                                Some(joined("paste dispatch aborted: ", reason)),
                                held,
                                true,
                            )
                        },
                        PasteDispatchRoute::AnnotatedSession => {
                            self.stage = PasteStage::Dispatch;
                            if self.sender == ExternalSenderMode::InProcess {
                                PasteAction::Run(PasteRequest::Post)
                            } else {
                                PasteAction::Run(PasteRequest::RunHelper)
                            }
                        },
                    }
                },
                _ => PasteAction::Run(PasteRequest::Frontmost),
            },
            PasteStage::Dispatch => {
                self.stage = PasteStage::Done;
                match event {
                    PasteEvent::Completed(Err(m)) => {
                        let recorded = owned(m.as_str());
                        fail(m, Some(recorded), held, true)
                    },
                    PasteEvent::Helper(HelperOutcome::RejectedBeforePost(reason)) => fail(
                        owned("目标或写回身份在发送前发生变化，已取消写回。"),
                        Some(joined("paste helper rejected before post: ", reason.as_str())),
                        held,
                        true,
                    ),
                    PasteEvent::Helper(HelperOutcome::UnknownAfterDispatch) => finish(
                        ExternalPasteDispatch::UnknownAfterDispatch,
                        "paste-unknown-after-dispatch",
                        held,
                    ),
                    _ => finish(
                        ExternalPasteDispatch::DispatchedUnverified,
                        "paste-dispatched-unverified",
                        held,
                    ),
                }
            },
            PasteStage::Done => PasteAction::Run(PasteRequest::CheckIdentity),
        }
    }
}


/// Where the final text of a dictation goes.
#[derive(Debug)]
pub enum WritebackRoute {
    /// Pasted into the external application (see `PasteRun`).
    Paste,
    /// Written into a popup input of this process.
    LocalPopup { window_label: String, request_id: String, text: String },
    /// Sent to the popup input of another process of this application over its channel.
    CrossProcess {
        window_label: String,
        request_id: String,
        text: String,
        socket_path: String,
        token: String,
    },
}

/// How a write-back to an external application or another process ended.
#[derive(Clone, Copy, Debug, PartialEq, Eq, Structural)]
pub enum ExternalWriteback {
    DispatchedUnverified,
    UnknownAfterDispatch,
    Acknowledged,
}

/// Decides where the final text of a dictation goes, from the text, the held target, this
/// process's id (when it fits an `i32`) and the registered popup inputs. Empty text or no
/// target is refused. An external target is pasted into. A popup input of this process is
/// written into directly. A popup input of another process must still be the one that
/// process registered last, under the same window and request, and must have a channel
/// and its token; the text then goes over that channel. The text is trimmed.
pub fn speech_writeback_route(
    text: &str,
    target: Option<&SpeechTarget>,
    own_pid: Option<i32>,
    registered: &Vec<PopupSpeechTarget>,
) -> (res: Result<WritebackRoute, String>)
    ensures
        trim(text@).len() == 0 ==> (res matches Err(m) && m@ == "text is empty"@),
        trim(text@).len() > 0 ==> match target {
            None => res matches Err(m) && m@ == "missing speech target"@,
            Some(t) => match *t {
                SpeechTarget::ExternalApp { .. } => res matches Ok(WritebackRoute::Paste),
                SpeechTarget::IteratePopupInput { window_label, request_id, pid } => if pid
                    == own_pid {
                    res matches Ok(WritebackRoute::LocalPopup { window_label: w, request_id: r, text: x })
                        && w@ == window_label@ && r@ == request_id@ && x@ == trim(text@)
                } else {
                    match pid {
                        None => res matches Err(m) && m@
                            == "cross-process popup target pid is missing"@,
                        Some(p) => {
                            let k = if p >= 0 {
                                latest_of_pid(registered@, p as u32)
                            } else {
                                None
                            };
                            match k {
                                None => res matches Err(m) && m@
                                    == "cross-process popup target is no longer registered"@,
                                Some(k) => {
                                    let e = registered@[k];
                                    if e.request_id@ != request_id@ || e.window_label@
                                        != window_label@ {
                                        res matches Err(m) && m@
                                            == "cross-process popup endpoint does not match the captured target"@
                                    } else if e.ipc_socket_path is None {
                                        res matches Err(m) && m@
                                            == "cross-process popup IPC socket is missing"@
                                    } else if e.ipc_token is None {
                                        res matches Err(m) && m@
                                            == "cross-process popup IPC token is missing"@
                                    } else {
                                        res matches Ok(
                                            WritebackRoute::CrossProcess {
                                                window_label: w,
                                                request_id: r,
                                                text: x,
                                                socket_path: sp,
                                                token: tk,
                                            },
                                        ) && w@ == window_label@ && r@ == request_id@ && x@
                                            == trim(text@) && Some(sp@) == so(e.ipc_socket_path)
                                            && Some(tk@) == so(e.ipc_token)
                                    }
                                },
                            }
                        },
                    }
                },
            },
        },
{
    let trimmed_chars = trim_chars(&chars_of(text));
    if trimmed_chars.len() == 0 {
        return Err(owned("text is empty"));
    }
    let trimmed = string_from(&trimmed_chars);
    let t = match target {
        None => {
            return Err(owned("missing speech target"));
        },
        Some(t) => t,
    };
    match t {
        SpeechTarget::ExternalApp { .. } => Ok(WritebackRoute::Paste),
        SpeechTarget::IteratePopupInput { window_label, request_id, pid } => {
            if *pid == own_pid {
                return Ok(
                    WritebackRoute::LocalPopup {
                        window_label: owned(window_label.as_str()),
                        request_id: owned(request_id.as_str()),
                        text: trimmed,
                    },
                );
            }
            let p = match pid {
                None => {
                    return Err(owned("cross-process popup target pid is missing"));
                },
                Some(p) => *p,
            };
            let e = match registered_popup_speech_target_for_pid(registered, p) {
                None => {
                    return Err(owned("cross-process popup target is no longer registered"));
                },
                Some(e) => e,
            };
            if !chars_eq_str(&chars_of(e.request_id.as_str()), request_id.as_str())
                || !chars_eq_str(&chars_of(e.window_label.as_str()), window_label.as_str()) {
                return Err(owned("cross-process popup endpoint does not match the captured target"));
            }
            let socket_path = match &e.ipc_socket_path {
                None => {
                    return Err(owned("cross-process popup IPC socket is missing"));
                },
                Some(sp) => owned(sp.as_str()),
            };
            let token = match &e.ipc_token {
                None => {
                    return Err(owned("cross-process popup IPC token is missing"));
                },
                Some(tk) => owned(tk.as_str()),
            };
            Ok(
                WritebackRoute::CrossProcess {
                    window_label: owned(window_label.as_str()),
                    request_id: owned(request_id.as_str()),
                    text: trimmed,
                    socket_path,
                    token,
                },
            )
        },
    }
}

/// How a paste into an external application counts as a write-back.
pub fn paste_writeback(dispatch: ExternalPasteDispatch) -> (res: ExternalWriteback)
    ensures
        res == (match dispatch {
            ExternalPasteDispatch::DispatchedUnverified => ExternalWriteback::DispatchedUnverified,
            ExternalPasteDispatch::UnknownAfterDispatch => ExternalWriteback::UnknownAfterDispatch,
        }),
{
    match dispatch {
        ExternalPasteDispatch::DispatchedUnverified => ExternalWriteback::DispatchedUnverified,
        ExternalPasteDispatch::UnknownAfterDispatch => ExternalWriteback::UnknownAfterDispatch,
    }
}

/// How sending the text over another process's channel counts as a write-back: an
/// acknowledgement, an error after the text went out (whose delivery is unknown), or the
/// error of a send that never went out.
pub fn cross_process_writeback(sent: Result<(), (bool, String)>) -> (res: Result<ExternalWriteback, String>)
    ensures
        match sent {
            Ok(()) => res == Ok::<ExternalWriteback, String>(ExternalWriteback::Acknowledged),
            Err((dispatched, m)) => if dispatched {
                res == Ok::<ExternalWriteback, String>(ExternalWriteback::UnknownAfterDispatch)
            } else {
                res matches Err(e) && e@ == m@
            },
        },
{
    match sent {
        Ok(()) => Ok(ExternalWriteback::Acknowledged),
        Err((dispatched, m)) => {
            if dispatched {
                Ok(ExternalWriteback::UnknownAfterDispatch)
            } else {
                Err(m)
            }
        },
    }
}

/// How far a paste run has come. No step takes a run back.
pub open spec fn paste_rank(s: PasteStage) -> nat {
    match s {
        PasteStage::Identity => 0,
        PasteStage::Accessibility => 1,
        PasteStage::Sender => 2,
        PasteStage::Clipboard => 3,
        PasteStage::Activate => 4,
        PasteStage::Frontmost => 5,
        PasteStage::RestoreFocus => 6,
        PasteStage::InspectFocus => 7,
        PasteStage::BeforeDispatch => 8,
        PasteStage::Dispatch => 9,
        PasteStage::Done => 10,
    }
}

/// Step `i` of a driven paste run: the answer `events[i]` to `actions[i]` took `runs[i]`,
/// which was not over, to `runs[i + 1]` and the next action `actions[i + 1]`.
pub open spec fn paste_step_at(
    runs: Seq<PasteRun>,
    events: Seq<PasteEvent>,
    actions: Seq<PasteAction>,
    i: int,
) -> bool {
    &&& runs[i].stage != PasteStage::Done
    &&& paste_step(runs[i], runs[i + 1], events[i], actions[i + 1])
    &&& same_paste(runs[i], runs[i + 1])
}

/// `runs`, `events` and `actions` are a paste run driven step by step through
/// `PasteRun::step` from its start.
pub open spec fn driven_paste(runs: Seq<PasteRun>, events: Seq<PasteEvent>, actions: Seq<PasteAction>) -> bool {
    &&& runs.len() == events.len() + 1
    &&& actions.len() == runs.len()
    &&& forall|i: int| 0 <= i < events.len() ==> #[trigger] paste_step_at(runs, events, actions, i)
}

/// At step `i`, just before the dispatch, the target was frontmost and the focused process
/// let the paste go to it.
pub open spec fn cleared_for_dispatch(runs: Seq<PasteRun>, events: Seq<PasteEvent>, i: int) -> bool {
    &&& runs[i].stage == PasteStage::BeforeDispatch
    &&& events[i] matches PasteEvent::Frontmost { bundle_id, pid }
    &&& is_target(runs[i], bundle_id, pid)
    &&& paste_route_spec(pid, focused_bundle(runs[i].focused), runs[i].bundle_id@) is None
}

proof fn lemma_paste_step_rank(before: PasteRun, after: PasteRun, e: PasteEvent, a: PasteAction)
    requires
        paste_step(before, after, e, a),
    ensures
        paste_rank(before.stage) <= paste_rank(after.stage),
        paste_rank(before.stage) < 9 && after.stage == PasteStage::Dispatch ==> before.stage
            == PasteStage::BeforeDispatch && (e matches PasteEvent::Frontmost { bundle_id, pid }
            && is_target(before, bundle_id, pid) && paste_route_spec(
            pid,
            focused_bundle(before.focused),
            before.bundle_id@,
        ) is None),
        a is Finish ==> before.stage == PasteStage::Dispatch,
{
}

proof fn lemma_paste_rank_mono(
    runs: Seq<PasteRun>,
    events: Seq<PasteEvent>,
    actions: Seq<PasteAction>,
    i: int,
    j: int,
)
    requires
        driven_paste(runs, events, actions),
        0 <= i <= j < runs.len(),
    ensures
        paste_rank(runs[i].stage) <= paste_rank(runs[j].stage),
    decreases j - i,
{
    if i < j {
        lemma_paste_rank_mono(runs, events, actions, i, j - 1);
        assert(paste_step_at(runs, events, actions, j - 1));
        lemma_paste_step_rank(runs[j - 1], runs[j], events[j - 1], actions[j]);
    }
}

proof fn lemma_cleared_before(runs: Seq<PasteRun>, events: Seq<PasteEvent>, actions: Seq<PasteAction>, j: int)
    requires
        driven_paste(runs, events, actions),
        0 < j < runs.len(),
        runs[j].stage == PasteStage::Dispatch,
        paste_rank(runs[0].stage) < 9,
    ensures
        exists|i: int| 0 <= i < j && cleared_for_dispatch(runs, events, i),
    decreases j,
{
    assert(paste_step_at(runs, events, actions, j - 1));
    lemma_paste_step_rank(runs[j - 1], runs[j], events[j - 1], actions[j]);
    if runs[j - 1].stage == PasteStage::Dispatch {
        lemma_cleared_before(runs, events, actions, j - 1);
        let i = choose|i: int| 0 <= i < j - 1 && cleared_for_dispatch(runs, events, i);
        assert(0 <= i < j && cleared_for_dispatch(runs, events, i));
    } else {
        assert(cleared_for_dispatch(runs, events, j - 1));
    }
}

/// A paste run that sends its paste does so only after the target was confirmed to be
/// frontmost right before the dispatch and the focused process let the paste go to it:
/// a paste is never sent into another window than the captured target.
pub proof fn law_paste_sent_only_to_the_frontmost_target(
    runs: Seq<PasteRun>,
    events: Seq<PasteEvent>,
    actions: Seq<PasteAction>,
)
    requires
        driven_paste(runs, events, actions),
        runs[0].stage == PasteStage::Identity,
        requests(actions[0], PasteRequest::CheckIdentity),
    ensures
        actions.last() is Finish ==> exists|i: int|
            0 <= i < events.len() && cleared_for_dispatch(runs, events, i),
{
    let n = events.len() as int;
    if actions.last() is Finish {
        if n == 0 {
            assert(actions.last() == actions[0]);
        } else {
            assert(paste_step_at(runs, events, actions, n - 1));
            lemma_paste_step_rank(runs[n - 1], runs[n], events[n - 1], actions[n]);
            assert(n > 1);
            lemma_cleared_before(runs, events, actions, n - 1);
            let i = choose|i: int| 0 <= i < n - 1 && cleared_for_dispatch(runs, events, i);
            assert(0 <= i < events.len() && cleared_for_dispatch(runs, events, i));
        }
    }
}

} // verus!
