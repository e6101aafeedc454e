//! The decisions of native speech input: the recognition mode, where dictated text may be
//! pasted, which speech target to keep, the registry of popup inputs, the typed
//! acknowledgements of popup writeback, and the metadata of the process that owns the
//! Fn key.
use vstd::prelude::*;

use crate::text::{
    all_digits, append_chars, append_str, chars_eq, chars_eq_str, chars_of, contains, contains_str,
    decimal, decimal_chars, find_char, find_char_in, is_digit, is_ws, lemma_decimal, lines,
    lines_from, lines_of, parse_unsigned, parse_unsigned_chars, slice_chars, string_from, strip_cr,
    trim, trim_chars, trim_end, trim_start, unsigned_digits, views,
};

verus! {

broadcast use vstd::string::group_string_axioms;

/// The view of an optional `String`.
pub open spec fn so(o: Option<String>) -> Option<Seq<char>> {
    match o {
        Some(s) => Some(s@),
        None => None,
    }
}

fn copy_str(s: &String) -> (res: String)
    ensures
        res@ == s@,
{
    string_from(&chars_of(s.as_str()))
}

fn copy_opt_str(o: &Option<String>) -> (res: Option<String>)
    ensures
        so(res) == so(*o),
{
    match o {
        Some(s) => Some(copy_str(s)),
        None => None,
    }
}

// ---------------------------------------------------------------------------
// Recognition mode
// ---------------------------------------------------------------------------

/// How speech is recognized: for quality (any recognizer) or for privacy (on the device).
#[derive(Clone, Copy, Debug, PartialEq, Eq, Structural)]
pub enum NativeSpeechRecognitionMode {
    Quality,
    Privacy,
}

impl NativeSpeechRecognitionMode {
    /// The mode a setting names: privacy for `privacy` (around whitespace), else quality.
    pub fn from_option(value: Option<String>) -> (res: NativeSpeechRecognitionMode)
        ensures
            res == (if value matches Some(v) && trim(v@) == "privacy"@ {
                NativeSpeechRecognitionMode::Privacy
            } else {
                NativeSpeechRecognitionMode::Quality
            }),
    {
        match value {
            Some(v) => {
                if chars_eq_str(&trim_chars(&chars_of(v.as_str())), "privacy") {
                    NativeSpeechRecognitionMode::Privacy
                } else {
                    NativeSpeechRecognitionMode::Quality
                }
            },
            None => NativeSpeechRecognitionMode::Quality,
        }
    }

    /// The mode's name.
    pub fn as_str(self) -> (res: &'static str)
        ensures
            res@ == (match self {
                NativeSpeechRecognitionMode::Quality => "quality"@,
                NativeSpeechRecognitionMode::Privacy => "privacy"@,
            }),
    {
        match self {
            NativeSpeechRecognitionMode::Quality => "quality",
            NativeSpeechRecognitionMode::Privacy => "privacy",
        }
    }

    /// Whether recognition must stay on the device: in privacy mode.
    pub fn force_on_device(self) -> (res: bool)
        ensures
            res == (self == NativeSpeechRecognitionMode::Privacy),
    {
        self == NativeSpeechRecognitionMode::Privacy
    }
}

/// An optional setting, trimmed, unless it is blank.
pub open spec fn normalized(value: Option<Seq<char>>) -> Option<Seq<char>> {
    match value {
        Some(v) => if trim(v).len() > 0 {
            Some(trim(v))
        } else {
            None
        },
        None => None,
    }
}

/// An optional setting, trimmed, unless it is blank.
pub fn normalize_optional_string(value: Option<String>) -> (res: Option<String>)
    ensures
        so(res) == normalized(so(value)),
{
    match value {
        Some(v) => {
            let t = trim_chars(&chars_of(v.as_str()));
            if t.len() > 0 {
                Some(string_from(&t))
            } else {
                None
            }
        },
        None => None,
    }
}

// ---------------------------------------------------------------------------
// Where dictated text is pasted
// ---------------------------------------------------------------------------

/// The bundle identifier of this application.
pub open spec fn own_bundle_id() -> Seq<char> {
    "com.kexin94yyds.iterate"@
}

/// Whether a bundle identifier is this application's.
pub fn is_own_bundle_id(bundle_id: &str) -> (res: bool)
    ensures
        res == (bundle_id@ == own_bundle_id()),
{
    chars_eq_str(&chars_of(bundle_id), "com.kexin94yyds.iterate")
}

/// The process that holds the keyboard focus.
#[derive(Debug)]
pub struct FocusedProcessInfo {
    pub pid: i32,
    pub bundle_id: Option<String>,
    pub name: Option<String>,
}

/// How the target's focus was captured: its exact focused element, or only the frontmost
/// process (when accessibility had no focused element to give).
#[derive(Clone, Copy, Debug, PartialEq, Eq, Structural)]
pub enum FocusDispatchMode {
    Exact,
    FrontmostPidFallback,
}

/// How a paste is delivered: posted to the annotated session, or not at all (and why).
#[derive(Clone, Copy, Debug, PartialEq, Eq)]
pub enum PasteDispatchRoute {
    AnnotatedSession,
    Abort(&'static str),
}

/// Where a paste goes: nowhere without a frontmost process or when the focus is in this
/// application or in another application than the target; else to the annotated session.
pub open spec fn paste_route_spec(
    frontmost_pid: Option<i32>,
    focused_bundle: Option<Option<Seq<char>>>,
    target_bundle_id: Seq<char>,
) -> Option<Seq<char>> {
    if frontmost_pid is None {
        Some("missing-frontmost-pid"@)
    } else {
        match focused_bundle {
            Some(Some(b)) => if b == own_bundle_id() {
                Some("focused-own-app"@)
            } else if b != target_bundle_id {
                Some("focused-bundle-mismatch"@)
            } else {
                None
            },
            _ => None,
        }
    }
}

/// Chooses how a paste reaches the target: the abort reason, or the annotated session.
pub fn select_paste_dispatch_route(
    frontmost_pid: Option<i32>,
    focused_process: Option<&FocusedProcessInfo>,
    target_bundle_id: &str,
    focus_mode: FocusDispatchMode,
) -> (res: PasteDispatchRoute)
    ensures
        match paste_route_spec(
            frontmost_pid,
            match focused_process {
                Some(info) => Some(so(info.bundle_id)),
                None => None,
            },
            target_bundle_id@,
        ) {
            Some(reason) => (res matches PasteDispatchRoute::Abort(r) && r@ == reason),
            None => res == PasteDispatchRoute::AnnotatedSession,
        },
{
    if frontmost_pid.is_none() {
        return PasteDispatchRoute::Abort("missing-frontmost-pid");
    }
    match focused_process {
        Some(info) => match &info.bundle_id {
            Some(b) => {
                if is_own_bundle_id(b.as_str()) {
                    return PasteDispatchRoute::Abort("focused-own-app");
                }
                if !chars_eq_str(&chars_of(b.as_str()), target_bundle_id) {
                    return PasteDispatchRoute::Abort("focused-bundle-mismatch");
                }
            },
            None => {},
        },
        None => {},
    }
    match focus_mode {
        FocusDispatchMode::Exact | FocusDispatchMode::FrontmostPidFallback => {
            PasteDispatchRoute::AnnotatedSession
        },
    }
}

/// The accessibility error for "no value".
pub const AX_ERROR_NO_VALUE: i32 = -25212;

/// The text of an integer, as `Display` writes it.
pub open spec fn int_text(i: int) -> Seq<char> {
    if i < 0 {
        "-"@ + decimal((-i) as nat)
    } else {
        decimal(i as nat)
    }
}

/// The text of an `i32`.
pub fn i32_text(i: i32) -> (res: String)
    ensures
        res@ == int_text(i as int),
{
    let mut m: Vec<char> = Vec::new();
    let wide = i as i64;
    if wide < 0 {
        m.push('-');
        let d = decimal_chars((0 - wide) as u64);
        append_chars(&mut m, &d);
        assert(m@ =~= "-"@ + decimal((-(i as int)) as nat)) by {
            reveal_strlit("-");
        }
    } else {
        let d = decimal_chars(wide as u64);
        append_chars(&mut m, &d);
        assert(m@ =~= decimal(i as nat));
    }
    string_from(&m)
}

/// Why the focused element could not be captured: an accessibility error code, or another
/// reason.
#[derive(Debug)]
pub struct FocusedElementCaptureError {
    pub ax_error: Option<i32>,
    pub message: String,
}

impl FocusedElementCaptureError {
    /// The failure of copying the focused element, with its error code.
    pub fn ax_copy(error: i32) -> (res: FocusedElementCaptureError)
        ensures
            res.ax_error == Some(error),
            res.message@ == "AXFocusedUIElement error="@ + int_text(error as int),
    {
        let mut m = chars_of("AXFocusedUIElement error=");
        let t = i32_text(error);
        append_str(&mut m, t.as_str());
        FocusedElementCaptureError { ax_error: Some(error), message: string_from(&m) }
    }

    /// A failure of another kind.
    pub fn other(message: &str) -> (res: FocusedElementCaptureError)
        ensures
            res.ax_error is None,
            res.message@ == message@,
    {
        FocusedElementCaptureError { ax_error: None, message: string_from(&chars_of(message)) }
    }

    /// Only "no value" lets the paste fall back to the frontmost process.
    pub fn allows_frontmost_pid_fallback(&self) -> (res: bool)
        ensures
            res == (self.ax_error == Some(AX_ERROR_NO_VALUE)),
    {
        match self.ax_error {
            Some(e) => e == AX_ERROR_NO_VALUE,
            None => false,
        }
    }
}

// ---------------------------------------------------------------------------
// Speech targets
// ---------------------------------------------------------------------------

/// Where dictated text goes: an external application, or a popup input of this one.
#[derive(Debug)]
pub enum SpeechTarget {
    ExternalApp { bundle_id: String, pid: Option<i32> },
    IteratePopupInput { window_label: String, request_id: String, pid: Option<i32> },
}

/// The text of an optional process id.
pub open spec fn pid_text(pid: Option<i32>) -> Seq<char> {
    match pid {
        Some(p) => int_text(p as int),
        None => "<unknown>"@,
    }
}

fn pid_text_of(pid: Option<i32>) -> (res: String)
    ensures
        res@ == pid_text(pid),
{
    match pid {
        Some(p) => i32_text(p),
        None => string_from(&chars_of("<unknown>")),
    }
}

impl SpeechTarget {
    /// The kind of target, as logged.
    pub fn kind(&self) -> (res: &'static str)
        ensures
            res@ == (match self {
                SpeechTarget::ExternalApp { .. } => "external-app"@,
                SpeechTarget::IteratePopupInput { .. } => "iterate-popup-input"@,
            }),
    {
        match self {
            SpeechTarget::ExternalApp { .. } => "external-app",
            SpeechTarget::IteratePopupInput { .. } => "iterate-popup-input",
        }
    }

    /// The bundle identifier of an external target.
    pub fn bundle_id(&self) -> (res: Option<&str>)
        ensures
            match self {
                SpeechTarget::ExternalApp { bundle_id, .. } => (res matches Some(b) && b@
                    == bundle_id@),
                SpeechTarget::IteratePopupInput { .. } => res is None,
            },
    {
        match self {
            SpeechTarget::ExternalApp { bundle_id, .. } => Some(bundle_id.as_str()),
            SpeechTarget::IteratePopupInput { .. } => None,
        }
    }

    /// The process of the target, when known.
    pub fn pid(&self) -> (res: Option<i32>)
        ensures
            res == (match self {
                SpeechTarget::ExternalApp { pid, .. } => *pid,
                SpeechTarget::IteratePopupInput { pid, .. } => *pid,
            }),
    {
        match self {
            SpeechTarget::ExternalApp { pid, .. } => *pid,
            SpeechTarget::IteratePopupInput { pid, .. } => *pid,
        }
    }

    /// A one-line description of the target for the log.
    pub fn summary(&self) -> (res: String)
        ensures
            res@ == (match self {
                SpeechTarget::ExternalApp { bundle_id, pid } => "kind=external-app bundle_id="@
                    + bundle_id@ + " pid="@ + pid_text(*pid),
                SpeechTarget::IteratePopupInput { window_label, request_id, pid } =>
                    "kind=iterate-popup-input window_label="@ + window_label@ + " request_id="@
                    + request_id@ + " pid="@ + pid_text(*pid),
            }),
    {
        match self {
            SpeechTarget::ExternalApp { bundle_id, pid } => {
                let mut m = chars_of("kind=");
                append_str(&mut m, self.kind());
                append_str(&mut m, " bundle_id=");
                append_str(&mut m, bundle_id.as_str());
                append_str(&mut m, " pid=");
                let p = pid_text_of(*pid);
                append_str(&mut m, p.as_str());
                proof {
                    reveal_strlit("kind=");
                    reveal_strlit("external-app");
                    reveal_strlit("kind=external-app bundle_id=");
                    reveal_strlit(" bundle_id=");
                }
                assert(m@ =~= "kind=external-app bundle_id="@ + bundle_id@ + " pid="@ + pid_text(*pid));
                string_from(&m)
            },
            SpeechTarget::IteratePopupInput { window_label, request_id, pid } => {
                let mut m = chars_of("kind=");
                append_str(&mut m, self.kind());
                append_str(&mut m, " window_label=");
                append_str(&mut m, window_label.as_str());
                append_str(&mut m, " request_id=");
                append_str(&mut m, request_id.as_str());
                append_str(&mut m, " pid=");
                let p = pid_text_of(*pid);
                append_str(&mut m, p.as_str());
                proof {
                    reveal_strlit("kind=");
                    reveal_strlit("iterate-popup-input");
                    reveal_strlit("kind=iterate-popup-input window_label=");
                    reveal_strlit(" window_label=");
                }
                assert(m@ =~= "kind=iterate-popup-input window_label="@ + window_label@
                    + " request_id="@ + request_id@ + " pid="@ + pid_text(*pid));
                string_from(&m)
            },
        }
    }
}

/// Whether the main process of this application, showing its overlay, keeps the target it
/// already holds: when that target is another process than the frontmost one (this one),
/// unless a real request process is frontmost, which may replace it.
pub fn should_preserve_retained_target_for_own_main_process(
    retained_target: Option<&SpeechTarget>,
    frontmost_pid: i32,
    is_mcp_request: bool,
) -> (res: bool)
    ensures
        res == (!is_mcp_request && match retained_target {
            Some(t) => match t {
                SpeechTarget::ExternalApp { pid, .. } => pid matches Some(p) && p != frontmost_pid,
                SpeechTarget::IteratePopupInput { pid, .. } => pid matches Some(p) && p
                    != frontmost_pid,
            },
            None => false,
        }),
{
    if is_mcp_request {
        return false;
    }
    match retained_target {
        Some(t) => match t.pid() {
            Some(p) => p != frontmost_pid,
            None => false,
        },
        None => false,
    }
}

/// Whether a process's command line shows a request process (`--mcp-request` as an
/// argument of its own).
pub fn is_mcp_request_process(command_line: Option<&str>) -> (res: bool)
    ensures
        res == (command_line matches Some(c) && (contains(c@, " --mcp-request "@) || contains(
            c@,
            "\t--mcp-request "@,
        ))),
{
    match command_line {
        Some(c) => {
            let v = chars_of(c);
            contains_str(&v, " --mcp-request ") || contains_str(&v, "\t--mcp-request ")
        },
        None => false,
    }
}

/// The command line of a process as `ps -p <pid> -o command=` printed it: nothing when
/// `ps` failed or printed nothing.
pub fn process_command_line(outcome: &crate::checkpoint::CommandOutcome) -> (res: Option<String>)
    ensures
        match outcome {
            crate::checkpoint::CommandOutcome::Exited { success: true, stdout, .. } => if trim(
                stdout@,
            ).len() > 0 {
                res matches Some(c) && c@ == trim(stdout@)
            } else {
                res is None
            },
            _ => res is None,
        },
{
    match outcome {
        crate::checkpoint::CommandOutcome::Exited { success, stdout, .. } => {
            if !*success {
                return None;
            }
            let t = trim_chars(&chars_of(stdout.as_str()));
            if t.len() > 0 {
                Some(string_from(&t))
            } else {
                None
            }
        },
        crate::checkpoint::CommandOutcome::SpawnFailed(_) => None,
    }
}

/// Whether a process is alive: this process is; another one is when its id fits an `i32`
/// and `ps` shows its command line.
pub fn process_is_alive(pid: u32, own_pid: u32, command_line: Option<&str>) -> (res: bool)
    ensures
        res == (pid == own_pid || (pid <= i32::MAX && command_line is Some)),
{
    if pid == own_pid {
        return true;
    }
    if pid > 2147483647 {
        return false;
    }
    command_line.is_some()
}

// ---------------------------------------------------------------------------
// Popup inputs
// ---------------------------------------------------------------------------

/// A popup input of this application that dictated text can be written into.
#[derive(Debug)]
pub struct PopupSpeechTarget {
    pub window_label: String,
    pub request_id: String,
    pub pid: Option<u32>,
    pub project_path: Option<String>,
    pub reason: Option<String>,
    pub updated_at: Option<String>,
    pub ipc_socket_path: Option<String>,
    pub ipc_token: Option<String>,
}

/// What a popup input shows to the frontend: everything but its private channel.
#[derive(Debug)]
pub struct PopupSpeechTargetView {
    pub window_label: String,
    pub request_id: String,
    pub pid: Option<u32>,
    pub project_path: Option<String>,
    pub reason: Option<String>,
    pub updated_at: Option<String>,
}

impl PopupSpeechTargetView {
    /// The view of a popup input, without its private channel.
    pub fn from(target: PopupSpeechTarget) -> (res: PopupSpeechTargetView)
        ensures
            res.window_label == target.window_label,
            res.request_id == target.request_id,
            res.pid == target.pid,
            res.project_path == target.project_path,
            res.reason == target.reason,
            res.updated_at == target.updated_at,
    {
        PopupSpeechTargetView {
            window_label: target.window_label,
            request_id: target.request_id,
            pid: target.pid,
            project_path: target.project_path,
            reason: target.reason,
            updated_at: target.updated_at,
        }
    }
}

/// The process id of a popup input as an `i32`, when it fits.
pub fn popup_target_pid_i32(target: &PopupSpeechTarget) -> (res: Option<i32>)
    ensures
        res == (match target.pid {
            Some(p) => if p <= i32::MAX {
                Some(p as i32)
            } else {
                None
            },
            None => None,
        }),
{
    match target.pid {
        Some(p) => {
            if p <= 2147483647 {
                Some(p as i32)
            } else {
                None
            }
        },
        None => None,
    }
}

/// A registered popup input stays while its process lives and it names a window and a
/// request.
pub open spec fn target_live(t: PopupSpeechTarget, alive: Seq<u32>) -> bool {
    &&& t.pid matches Some(p) && alive.contains(p)
    &&& trim(t.window_label@).len() > 0
    &&& trim(t.request_id@).len() > 0
}

/// The registered popup inputs that stay, in order.
pub open spec fn live_targets(ts: Seq<PopupSpeechTarget>, alive: Seq<u32>) -> Seq<PopupSpeechTarget>
    decreases ts.len(),
{
    if ts.len() == 0 {
        seq![]
    } else if target_live(ts.last(), alive) {
        live_targets(ts.drop_last(), alive).push(ts.last())
    } else {
        live_targets(ts.drop_last(), alive)
    }
}

fn holds_pid(alive: &Vec<u32>, pid: u32) -> (res: bool)
    ensures
        res == alive@.contains(pid),
{
    let mut i: usize = 0;
    while i < alive.len()
        invariant
            i <= alive.len(),
            forall|j: int| 0 <= j < i ==> alive@[j] != pid,
        decreases alive.len() - i,
    {
        if alive[i] == pid {
            assert(alive@[i as int] == pid);
            return true;
        }
        i += 1;
    }
    false
}

/// Drops the registered popup inputs whose process has ended (`alive` lists the processes
/// that live) or that lack a window or a request.
pub fn cleanup_popup_speech_target_registry(targets: &mut Vec<PopupSpeechTarget>, alive: &Vec<u32>)
    ensures
        final(targets)@ == live_targets(old(targets)@, alive@),
{
    let ghost ts = targets@;
    let mut rest: Vec<PopupSpeechTarget> = Vec::new();
    std::mem::swap(&mut rest, targets);
    let n = rest.len();
    let mut kept: Vec<PopupSpeechTarget> = Vec::new();
    let mut i: usize = 0;
    assert(ts.skip(0) =~= ts);
    assert(ts.take(0) =~= seq![]);
    while rest.len() > 0
        invariant
            ts.len() == n,
            i <= n,
            rest@ == ts.skip(i as int),
            kept@ == live_targets(ts.take(i as int), alive@),
        decreases rest@.len(),
    {
        let t = rest.remove(0);
        assert(t == ts[i as int]);
        assert(ts.take(i + 1).drop_last() =~= ts.take(i as int));
        assert(ts.take(i + 1).last() == ts[i as int]);
        assert(rest@ =~= ts.skip(i + 1));
        let live = match t.pid {
            Some(p) => holds_pid(alive, p),
            None => false,
        } && trim_chars(&chars_of(t.window_label.as_str())).len() > 0 && trim_chars(
            &chars_of(t.request_id.as_str()),
        ).len() > 0;
        if live {
            kept.push(t);
        }
        i += 1;
    }
    assert(ts.take(i as int) =~= ts);
    *targets = kept;
}

/// The registered popup inputs without those of process `pid` and request `request_id`.
pub open spec fn without_target(ts: Seq<PopupSpeechTarget>, pid: u32, request_id: Seq<char>) -> Seq<PopupSpeechTarget>
    decreases ts.len(),
{
    if ts.len() == 0 {
        seq![]
    } else if ts.last().pid == Some(pid) && ts.last().request_id@ == request_id {
        without_target(ts.drop_last(), pid, request_id)
    } else {
        without_target(ts.drop_last(), pid, request_id).push(ts.last())
    }
}

/// Registers a popup input: it replaces the one of the same process and request, goes
/// last, and the registry is cleaned. A popup input without a process is refused.
pub fn upsert_registered_popup_speech_target(
    targets: &mut Vec<PopupSpeechTarget>,
    target: PopupSpeechTarget,
    alive: &Vec<u32>,
) -> (res: Result<(), String>)
    ensures
        match target.pid {
            None => (res matches Err(m) && m@ == "popup speech target pid is required"@)
                && final(targets)@ == old(targets)@,
            Some(p) => res is Ok && final(targets)@ == live_targets(
                without_target(old(targets)@, p, target.request_id@).push(target),
                alive@,
            ),
        },
{
    let pid = match target.pid {
        Some(p) => p,
        None => {
            return Err(string_from(&chars_of("popup speech target pid is required")));
        },
    };
    let ghost ts = targets@;
    let request = chars_of(target.request_id.as_str());
    let mut rest: Vec<PopupSpeechTarget> = Vec::new();
    std::mem::swap(&mut rest, targets);
    let n = rest.len();
    let mut kept: Vec<PopupSpeechTarget> = Vec::new();
    let mut i: usize = 0;
    assert(ts.skip(0) =~= ts);
    assert(ts.take(0) =~= seq![]);
    while rest.len() > 0
        invariant
            ts.len() == n,
            i <= n,
            rest@ == ts.skip(i as int),
            request@ == target.request_id@,
            kept@ == without_target(ts.take(i as int), pid, request@),
        decreases rest@.len(),
    {
        let t = rest.remove(0);
        assert(t == ts[i as int]);
        assert(ts.take(i + 1).drop_last() =~= ts.take(i as int));
        assert(ts.take(i + 1).last() == ts[i as int]);
        assert(rest@ =~= ts.skip(i + 1));
        let same = match t.pid {
            Some(p) => p == pid,
            None => false,
        } && chars_eq_str(&request, t.request_id.as_str());
        if !same {
            kept.push(t);
        }
        i += 1;
    }
    assert(ts.take(i as int) =~= ts);
    kept.push(target);
    cleanup_popup_speech_target_registry(&mut kept, alive);
    *targets = kept;
    Ok(())
}

/// The registered popup inputs that stay when process `own_pid` withdraws `request_id`:
/// those of other processes, and of its own those of another request (none of its own
/// when the request is blank).
pub open spec fn after_removal(ts: Seq<PopupSpeechTarget>, own_pid: u32, request_id: Seq<char>) -> Seq<PopupSpeechTarget>
    decreases ts.len(),
{
    if ts.len() == 0 {
        seq![]
    } else {
        let t = ts.last();
        let keep = t.pid != Some(own_pid) || (request_id.len() > 0 && t.request_id@ != request_id);
        if keep {
            after_removal(ts.drop_last(), own_pid, request_id).push(t)
        } else {
            after_removal(ts.drop_last(), own_pid, request_id)
        }
    }
}

/// Withdraws the popup inputs of process `own_pid` for `request_id` (trimmed; all of its
/// own when blank), then cleans the registry.
pub fn remove_registered_popup_speech_target(
    targets: &mut Vec<PopupSpeechTarget>,
    own_pid: u32,
    request_id: &str,
    alive: &Vec<u32>,
)
    ensures
        final(targets)@ == live_targets(after_removal(old(targets)@, own_pid, trim(request_id@)), alive@),
{
    let ghost ts = targets@;
    let request = trim_chars(&chars_of(request_id));
    let mut rest: Vec<PopupSpeechTarget> = Vec::new();
    std::mem::swap(&mut rest, targets);
    let n = rest.len();
    let mut kept: Vec<PopupSpeechTarget> = Vec::new();
    let mut i: usize = 0;
    assert(ts.skip(0) =~= ts);
    assert(ts.take(0) =~= seq![]);
    while rest.len() > 0
        invariant
            ts.len() == n,
            i <= n,
            rest@ == ts.skip(i as int),
            request@ == trim(request_id@),
            kept@ == after_removal(ts.take(i as int), own_pid, request@),
        decreases rest@.len(),
    {
        let t = rest.remove(0);
        assert(t == ts[i as int]);
        assert(ts.take(i + 1).drop_last() =~= ts.take(i as int));
        assert(ts.take(i + 1).last() == ts[i as int]);
        assert(rest@ =~= ts.skip(i + 1));
        let own = match t.pid {
            Some(p) => p == own_pid,
            None => false,
        };
        let keep = !own || (request.len() > 0 && !chars_eq_str(&request, t.request_id.as_str()));
        if keep {
            kept.push(t);
        }
        i += 1;
    }
    assert(ts.take(i as int) =~= ts);
    cleanup_popup_speech_target_registry(&mut kept, alive);
    *targets = kept;
}

/// The registered popup input of process `pid` that was updated last (by the text of
/// its update time, missing counting as empty; the later one on a tie).
pub open spec fn latest_of_pid(ts: Seq<PopupSpeechTarget>, pid: u32) -> Option<int>
    decreases ts.len(),
{
    if ts.len() == 0 {
        None
    } else {
        let k = ts.len() - 1;
        let best = latest_of_pid(ts.drop_last(), pid);
        if ts.last().pid == Some(pid) {
            match best {
                Some(b) => if crate::ordered::chars_lt(update_key(ts.last()), update_key(ts[b])) {
                    Some(b)
                } else {
                    Some(k)
                },
                None => Some(k),
            }
        } else {
            best
        }
    }
}

/// The update time of a popup input, empty when it has none.
pub open spec fn update_key(t: PopupSpeechTarget) -> Seq<char> {
    match t.updated_at {
        Some(u) => u@,
        None => seq![],
    }
}

fn update_key_of(t: &PopupSpeechTarget) -> (res: Vec<char>)
    ensures
        res@ == update_key(*t),
{
    match &t.updated_at {
        Some(u) => chars_of(u.as_str()),
        None => Vec::new(),
    }
}

/// A copy of a popup input.
pub fn copy_target(t: &PopupSpeechTarget) -> (res: PopupSpeechTarget)
    ensures
        res.window_label@ == t.window_label@,
        res.request_id@ == t.request_id@,
        res.pid == t.pid,
        so(res.project_path) == so(t.project_path),
        so(res.reason) == so(t.reason),
        so(res.updated_at) == so(t.updated_at),
        so(res.ipc_socket_path) == so(t.ipc_socket_path),
        so(res.ipc_token) == so(t.ipc_token),
{
    PopupSpeechTarget {
        window_label: copy_str(&t.window_label),
        request_id: copy_str(&t.request_id),
        pid: t.pid,
        project_path: copy_opt_str(&t.project_path),
        reason: copy_opt_str(&t.reason),
        updated_at: copy_opt_str(&t.updated_at),
        ipc_socket_path: copy_opt_str(&t.ipc_socket_path),
        ipc_token: copy_opt_str(&t.ipc_token),
    }
}

/// The popup input that process `pid` registered last, among the registered ones.
pub fn registered_popup_speech_target_for_pid(targets: &Vec<PopupSpeechTarget>, pid: i32) -> (res: Option<
    PopupSpeechTarget,
>)
    ensures
        pid < 0 ==> res is None,
        pid >= 0 ==> match latest_of_pid(targets@, pid as u32) {
            Some(k) => (res matches Some(t) && t.window_label@ == targets@[k].window_label@
                && t.request_id@ == targets@[k].request_id@ && t.pid == targets@[k].pid && so(
                t.updated_at,
            ) == so(targets@[k].updated_at) && so(t.ipc_socket_path) == so(
                targets@[k].ipc_socket_path,
            ) && so(t.ipc_token) == so(targets@[k].ipc_token)),
            None => res is None,
        },
{
    if pid < 0 {
        return None;
    }
    let p = pid as u32;
    let mut best: Option<usize> = None;
    let mut i: usize = 0;
    assert(targets@.take(0) =~= seq![]);
    while i < targets.len()
        invariant
            i <= targets.len(),
            p == pid as u32,
            match best {
                Some(b) => b < i && latest_of_pid(targets@.take(i as int), p) == Some(b as int),
                None => latest_of_pid(targets@.take(i as int), p) is None,
            },
        decreases targets.len() - i,
    {
        let ghost t = targets@.take(i + 1);
        assert(t.drop_last() =~= targets@.take(i as int));
        assert(t.last() == targets@[i as int]);
        if targets[i].pid == Some(p) {
            match best {
                Some(b) => {
                    assert(t[b as int] == targets@[b as int]);
                    let later = update_key_of(&targets[i]);
                    let current = update_key_of(&targets[b]);
                    if !crate::ordered::chars_less(&later, &current) {
                        best = Some(i);
                    }
                },
                None => {
                    best = Some(i);
                },
            }
        }
        i += 1;
    }
    assert(targets@.take(i as int) =~= targets@);
    match best {
        Some(b) => Some(copy_target(&targets[b])),
        None => None,
    }
}

proof fn lemma_live_targets_keep(
    ts: Seq<PopupSpeechTarget>,
    alive: Seq<u32>,
    keep: spec_fn(PopupSpeechTarget) -> bool,
)
    requires
        forall|i: int| 0 <= i < ts.len() ==> keep(#[trigger] ts[i]),
    ensures
        forall|i: int|
            0 <= i < live_targets(ts, alive).len() ==> keep(#[trigger] live_targets(ts, alive)[i])
                && target_live(live_targets(ts, alive)[i], alive),
    decreases ts.len(),
{
    if ts.len() > 0 {
        let front = ts.drop_last();
        assert forall|i: int| 0 <= i < front.len() implies keep(#[trigger] front[i]) by {
            assert(front[i] == ts[i]);
        }
        lemma_live_targets_keep(front, alive, keep);
        assert(keep(ts[ts.len() - 1]));
        let l = live_targets(front, alive);
        if target_live(ts.last(), alive) {
            assert(live_targets(ts, alive) == l.push(ts.last()));
            assert forall|i: int| 0 <= i < l.len() + 1 implies keep(
                #[trigger] l.push(ts.last())[i],
            ) && target_live(l.push(ts.last())[i], alive) by {
                if i < l.len() {
                    assert(l.push(ts.last())[i] == l[i]);
                }
            }
        } else {
            assert(live_targets(ts, alive) == l);
        }
    }
}

proof fn lemma_without_target_excludes(ts: Seq<PopupSpeechTarget>, pid: u32, request_id: Seq<char>)
    ensures
        forall|i: int|
            0 <= i < without_target(ts, pid, request_id).len() ==> !((#[trigger] without_target(
                ts,
                pid,
                request_id,
            )[i]).pid == Some(pid) && without_target(ts, pid, request_id)[i].request_id@
                == request_id),
    decreases ts.len(),
{
    if ts.len() > 0 {
        lemma_without_target_excludes(ts.drop_last(), pid, request_id);
    }
}

proof fn lemma_after_removal_withdraws(ts: Seq<PopupSpeechTarget>, own_pid: u32, request_id: Seq<char>)
    ensures
        forall|i: int|
            0 <= i < after_removal(ts, own_pid, request_id).len() ==> ((#[trigger] after_removal(
                ts,
                own_pid,
                request_id,
            )[i]).pid == Some(own_pid) ==> request_id.len() > 0 && after_removal(
                ts,
                own_pid,
                request_id,
            )[i].request_id@ != request_id),
    decreases ts.len(),
{
    if ts.len() > 0 {
        lemma_after_removal_withdraws(ts.drop_last(), own_pid, request_id);
    }
}

/// Registering a popup input whose process lives and that names a window and a request
/// leaves it last in the registry, as the only entry of its process and request, so that
/// a lookup by its process finds an entry.
pub proof fn law_registered_target_is_found(
    targets: Seq<PopupSpeechTarget>,
    target: PopupSpeechTarget,
    alive: Seq<u32>,
)
    requires
        target_live(target, alive),
    ensures
        ({
            let p = target.pid->0;
            let r = live_targets(without_target(targets, p, target.request_id@).push(target), alive);
            &&& r.len() > 0
            &&& r.last() == target
            &&& forall|i: int|
                0 <= i < r.len() - 1 ==> !((#[trigger] r[i]).pid == Some(p) && r[i].request_id@
                    == target.request_id@)
            &&& latest_of_pid(r, p) is Some
        }),
{
    let p = target.pid->0;
    let w = without_target(targets, p, target.request_id@);
    let r = live_targets(w.push(target), alive);
    assert(w.push(target).drop_last() =~= w);
    assert(r == live_targets(w, alive).push(target));
    lemma_without_target_excludes(targets, p, target.request_id@);
    let keep = |t: PopupSpeechTarget| !(t.pid == Some(p) && t.request_id@ == target.request_id@);
    assert forall|i: int| 0 <= i < w.len() implies keep(#[trigger] w[i]) by {}
    lemma_live_targets_keep(w, alive, keep);
    assert forall|i: int| 0 <= i < r.len() - 1 implies !((#[trigger] r[i]).pid == Some(p)
        && r[i].request_id@ == target.request_id@) by {
        assert(r[i] == live_targets(w, alive)[i]);
        assert(keep(live_targets(w, alive)[i]));
    }
}

/// After a process withdraws a request, none of its registered popup inputs is for that
/// request (none at all when the request is blank), and every one left is live.
pub proof fn law_withdrawn_target_is_gone(
    targets: Seq<PopupSpeechTarget>,
    own_pid: u32,
    request_id: Seq<char>,
    alive: Seq<u32>,
)
    ensures
        ({
            let r = live_targets(after_removal(targets, own_pid, trim(request_id)), alive);
            forall|i: int|
                0 <= i < r.len() ==> target_live(#[trigger] r[i], alive) && (r[i].pid == Some(
                    own_pid,
                ) ==> trim(request_id).len() > 0 && r[i].request_id@ != trim(request_id))
        }),
{
    let q = trim(request_id);
    let a = after_removal(targets, own_pid, q);
    lemma_after_removal_withdraws(targets, own_pid, q);
    let keep = |t: PopupSpeechTarget| t.pid == Some(own_pid) ==> q.len() > 0 && t.request_id@ != q;
    assert forall|i: int| 0 <= i < a.len() implies keep(#[trigger] a[i]) by {}
    lemma_live_targets_keep(a, alive, keep);
}

/// Cleaning the registry twice is cleaning it once.
pub proof fn law_cleanup_is_idempotent(targets: Seq<PopupSpeechTarget>, alive: Seq<u32>)
    ensures
        live_targets(live_targets(targets, alive), alive) == live_targets(targets, alive),
    decreases targets.len(),
{
    if targets.len() > 0 {
        law_cleanup_is_idempotent(targets.drop_last(), alive);
        let l = live_targets(targets.drop_last(), alive);
        if target_live(targets.last(), alive) {
            assert(l.push(targets.last()).drop_last() =~= l);
        }
    }
}

// ---------------------------------------------------------------------------
// Typed acknowledgements of popup writeback
// ---------------------------------------------------------------------------

/// The epoch of the process that owns speech input.
#[derive(Clone, Copy, Debug, PartialEq, Eq, Structural)]
pub struct OwnerEpoch(pub u128);

/// Which owner, session, utterance and lease a piece of dictated text belongs to.
#[derive(Clone, Copy, Debug, PartialEq, Eq, Structural)]
pub struct SpeechLayerIdentity {
    pub owner_epoch: OwnerEpoch,
    pub session_id: u64,
    pub utterance_id: u64,
    pub lease_id: u64,
}

impl SpeechLayerIdentity {
    /// The identity of an utterance under a lease of a session of an owner.
    pub fn new(owner_epoch: OwnerEpoch, session_id: u64, utterance_id: u64, lease_id: u64) -> (res:
        SpeechLayerIdentity)
        ensures
            res == (SpeechLayerIdentity { owner_epoch, session_id, utterance_id, lease_id }),
    {
        SpeechLayerIdentity { owner_epoch, session_id, utterance_id, lease_id }
    }
}

/// A popup insert sent to another process and not acknowledged yet.
#[derive(Debug)]
pub struct PendingPopupIpcAck {
    pub identity: SpeechLayerIdentity,
    pub request_id: String,
    pub window_label: String,
    pub text_len: usize,
}

/// Whether an acknowledgement names exactly the pending insert: the same identity,
/// request and window (trimmed) and text length.
pub fn pending_popup_ipc_insert_matches(
    pending: &PendingPopupIpcAck,
    identity: SpeechLayerIdentity,
    request_id: &str,
    window_label: &str,
    text_len: usize,
) -> (res: bool)
    ensures
        res == (pending.identity == identity && pending.request_id@ == trim(request_id@)
            && pending.window_label@ == trim(window_label@) && pending.text_len == text_len),
{
    pending.identity == identity && chars_eq(
        &chars_of(pending.request_id.as_str()),
        &trim_chars(&chars_of(request_id)),
    ) && chars_eq(&chars_of(pending.window_label.as_str()), &trim_chars(&chars_of(window_label)))
        && pending.text_len == text_len
}

/// The answer of a popup process to an insert.
#[derive(Debug)]
pub struct PopupSpeechIpcResponse {
    pub ok: bool,
    pub identity: SpeechLayerIdentity,
    pub request_id: String,
    pub window_label: String,
    pub insert_id: String,
    pub text_len: Option<usize>,
    pub error: Option<String>,
}

/// What an insert's answer means: a mismatch of identity, request, window or insert is
/// refused; a rejection carries the popup's error; the text length must be the one sent.
pub open spec fn ipc_response_result(
    r: PopupSpeechIpcResponse,
    identity: SpeechLayerIdentity,
    request_id: Seq<char>,
    window_label: Seq<char>,
    insert_id: Seq<char>,
    text_len: usize,
) -> Option<Seq<char>> {
    if r.identity != identity || r.request_id@ != request_id || r.window_label@ != window_label
        || r.insert_id@ != insert_id {
        Some("popup speech IPC returned a mismatched typed acknowledgement"@)
    } else if !r.ok {
        match r.error {
            Some(e) => Some(e@),
            None => Some("popup speech IPC rejected insert"@),
        }
    } else if r.text_len != Some(text_len) {
        Some("popup speech IPC acknowledgement text length mismatch"@)
    } else {
        None
    }
}

/// Checks a popup process's answer against the insert that was sent.
pub fn validate_popup_ipc_response(
    response: PopupSpeechIpcResponse,
    expected_identity: SpeechLayerIdentity,
    expected_request_id: &str,
    expected_window_label: &str,
    expected_insert_id: &str,
    expected_text_len: usize,
) -> (res: Result<(), String>)
    ensures
        match ipc_response_result(
            response,
            expected_identity,
            expected_request_id@,
            expected_window_label@,
            expected_insert_id@,
            expected_text_len,
        ) {
            Some(m) => (res matches Err(e) && e@ == m),
            None => res is Ok,
        },
{
    if response.identity != expected_identity || !chars_eq_str(
        &chars_of(response.request_id.as_str()),
        expected_request_id,
    ) || !chars_eq_str(&chars_of(response.window_label.as_str()), expected_window_label)
        || !chars_eq_str(&chars_of(response.insert_id.as_str()), expected_insert_id) {
        return Err(
            string_from(&chars_of("popup speech IPC returned a mismatched typed acknowledgement")),
        );
    }
    if !response.ok {
        return match response.error {
            Some(e) => Err(e),
            None => Err(string_from(&chars_of("popup speech IPC rejected insert"))),
        };
    }
    match response.text_len {
        Some(n) => {
            if n == expected_text_len {
                return Ok(());
            }
        },
        None => {},
    }
    Err(string_from(&chars_of("popup speech IPC acknowledgement text length mismatch")))
}

// ---------------------------------------------------------------------------
// The owner of the Fn key
// ---------------------------------------------------------------------------

/// What the process that owns the Fn key writes into its lock file.
#[derive(Debug)]
pub struct FnOwnerMetadata {
    pub pid: Option<u32>,
    pub bundle_id: Option<String>,
    pub exe_path: Option<String>,
    pub exe_mtime: Option<String>,
    pub team_id: Option<String>,
    pub cdhash: Option<String>,
    pub acquired_at: Option<String>,
}

/// The content of owner metadata.
pub struct OwnerFields {
    pub pid: Option<u32>,
    pub bundle_id: Option<Seq<char>>,
    pub exe_path: Option<Seq<char>>,
    pub exe_mtime: Option<Seq<char>>,
    pub team_id: Option<Seq<char>>,
    pub cdhash: Option<Seq<char>>,
    pub acquired_at: Option<Seq<char>>,
}

/// The content of owner metadata.
pub open spec fn fields_of(m: FnOwnerMetadata) -> OwnerFields {
    OwnerFields {
        pid: m.pid,
        bundle_id: so(m.bundle_id),
        exe_path: so(m.exe_path),
        exe_mtime: so(m.exe_mtime),
        team_id: so(m.team_id),
        cdhash: so(m.cdhash),
        acquired_at: so(m.acquired_at),
    }
}

/// Metadata with nothing in it.
pub open spec fn no_fields() -> OwnerFields {
    OwnerFields {
        pid: None,
        bundle_id: None,
        exe_path: None,
        exe_mtime: None,
        team_id: None,
        cdhash: None,
        acquired_at: None,
    }
}

/// What a line `key=value` (trimmed, split at its first `=`) sets; `pid` takes a `u32`
/// (nothing when the value is not one), the other known keys take the value as it is,
/// and other lines change nothing.
pub open spec fn apply_owner_line(m: OwnerFields, line: Seq<char>) -> OwnerFields {
    let t = trim(line);
    match find_char(t, '=') {
        None => m,
        Some(k) => {
            let key = t.take(k);
            let value = t.skip(k + 1);
            if key == "pid"@ {
                OwnerFields {
                    pid: match parse_unsigned(value, u32::MAX as nat) {
                        Some(v) => Some(v as u32),
                        None => None,
                    },
                    ..m
                }
            } else if key == "bundle_id"@ {
                OwnerFields { bundle_id: Some(value), ..m }
            } else if key == "exe_path"@ {
                OwnerFields { exe_path: Some(value), ..m }
            } else if key == "exe_mtime"@ {
                OwnerFields { exe_mtime: Some(value), ..m }
            } else if key == "team_id"@ {
                OwnerFields { team_id: Some(value), ..m }
            } else if key == "cdhash"@ {
                OwnerFields { cdhash: Some(value), ..m }
            } else if key == "acquired_at"@ {
                OwnerFields { acquired_at: Some(value), ..m }
            } else {
                m
            }
        },
    }
}

/// The metadata that a sequence of lines sets, each line after the ones before it.
pub open spec fn owner_fields_of_lines(ls: Seq<Seq<char>>) -> OwnerFields
    decreases ls.len(),
{
    if ls.len() == 0 {
        no_fields()
    } else {
        apply_owner_line(owner_fields_of_lines(ls.drop_last()), ls.last())
    }
}

fn apply_line_to(m: &mut FnOwnerMetadata, line: &Vec<char>)
    ensures
        fields_of(*final(m)) == apply_owner_line(fields_of(*old(m)), line@),
{
    let t = trim_chars(line);
    let k = match find_char_in(&t, '=') {
        Some(k) => k,
        None => {
            return;
        },
    };
    let key = slice_chars(&t, 0, k);
    let value = slice_chars(&t, k + 1, t.len());
    assert(key@ =~= t@.take(k as int));
    assert(value@ =~= t@.skip(k + 1));
    if chars_eq_str(&key, "pid") {
        m.pid = match parse_unsigned_chars(&value, 4294967295) {
            Some(v) => Some(v as u32),
            None => None,
        };
    } else if chars_eq_str(&key, "bundle_id") {
        m.bundle_id = Some(string_from(&value));
    } else if chars_eq_str(&key, "exe_path") {
        m.exe_path = Some(string_from(&value));
    } else if chars_eq_str(&key, "exe_mtime") {
        m.exe_mtime = Some(string_from(&value));
    } else if chars_eq_str(&key, "team_id") {
        m.team_id = Some(string_from(&value));
    } else if chars_eq_str(&key, "cdhash") {
        m.cdhash = Some(string_from(&value));
    } else if chars_eq_str(&key, "acquired_at") {
        m.acquired_at = Some(string_from(&value));
    }
}

/// Reads owner metadata from the lines `key=value` of a lock file; a key set twice keeps
/// its last value.
pub fn parse_fn_owner_metadata(content: &str) -> (res: FnOwnerMetadata)
    ensures
        fields_of(res) == owner_fields_of_lines(lines(content@)),
{
    let mut m = FnOwnerMetadata {
        pid: None,
        bundle_id: None,
        exe_path: None,
        exe_mtime: None,
        team_id: None,
        cdhash: None,
        acquired_at: None,
    };
    let text = chars_of(content);
    let ls = lines_of(&text);
    let ghost lv = views(ls@);
    let mut i: usize = 0;
    assert(lv.take(0) =~= seq![]);
    while i < ls.len()
        invariant
            lv == views(ls@),
            i <= ls.len(),
            fields_of(m) == owner_fields_of_lines(lv.take(i as int)),
        decreases ls.len() - i,
    {
        assert(lv.take(i + 1).drop_last() =~= lv.take(i as int));
        assert(lv.take(i + 1).last() == ls[i as int]@);
        apply_line_to(&mut m, &ls[i]);
        i += 1;
    }
    assert(lv.take(i as int) =~= lv);
    m
}

/// Whether owner metadata holds anything.
pub fn has_fn_owner_metadata(metadata: &FnOwnerMetadata) -> (res: bool)
    ensures
        res == (fields_of(*metadata) != no_fields()),
{
    metadata.pid.is_some() || metadata.bundle_id.is_some() || metadata.exe_path.is_some()
        || metadata.exe_mtime.is_some() || metadata.team_id.is_some() || metadata.cdhash.is_some()
        || metadata.acquired_at.is_some()
}

/// Whether the owner runs the same binary as this process: by code directory hash when
/// both have one, else by executable path when both have one, else unknown.
pub fn owner_matches_current_binary(owner: &FnOwnerMetadata, current: &FnOwnerMetadata) -> (res:
    Option<bool>)
    ensures
        res == (match (so(owner.cdhash), so(current.cdhash)) {
            (Some(a), Some(b)) => Some(a == b),
            _ => match (so(owner.exe_path), so(current.exe_path)) {
                (Some(a), Some(b)) => Some(a == b),
                _ => None,
            },
        }),
{
    match (&owner.cdhash, &current.cdhash) {
        (Some(a), Some(b)) => Some(chars_eq(&chars_of(a.as_str()), &chars_of(b.as_str()))),
        _ => match (&owner.exe_path, &current.exe_path) {
            (Some(a), Some(b)) => Some(chars_eq(&chars_of(a.as_str()), &chars_of(b.as_str()))),
            _ => None,
        },
    }
}

/// The line `key=value` of a field that is set, or nothing.
pub open spec fn owner_line(key: Seq<char>, value: Option<Seq<char>>) -> Seq<char> {
    match value {
        Some(v) => key + "="@ + v + "\n"@,
        None => seq![],
    }
}

/// The lock file's content for owner metadata: a line `key=value` for each field that is
/// set, in a fixed order.
pub open spec fn owner_text(m: OwnerFields) -> Seq<char> {
    owner_line(
        "pid"@,
        match m.pid {
            Some(p) => Some(decimal(p as nat)),
            None => None,
        },
    ) + owner_line("bundle_id"@, m.bundle_id) + owner_line("exe_path"@, m.exe_path) + owner_line(
        "exe_mtime"@,
        m.exe_mtime,
    ) + owner_line("team_id"@, m.team_id) + owner_line("cdhash"@, m.cdhash) + owner_line(
        "acquired_at"@,
        m.acquired_at,
    )
}

fn push_owner_line(text: &mut Vec<char>, key: &str, value: &Option<String>)
    ensures
        final(text)@ == old(text)@ + owner_line(key@, so(*value)),
{
    match value {
        Some(v) => {
            append_str(text, key);
            append_str(text, "=");
            append_str(text, v.as_str());
            append_str(text, "\n");
        },
        None => {
            assert(text@ + seq![] =~= text@);
        },
    }
}

/// The content that the owner writes into its lock file.
pub fn fn_owner_metadata_text(metadata: &FnOwnerMetadata) -> (res: String)
    ensures
        res@ == owner_text(fields_of(*metadata)),
{
    let mut text: Vec<char> = Vec::new();
    let pid = match metadata.pid {
        Some(p) => Some(string_from(&decimal_chars(p as u64))),
        None => None,
    };
    push_owner_line(&mut text, "pid", &pid);
    push_owner_line(&mut text, "bundle_id", &metadata.bundle_id);
    push_owner_line(&mut text, "exe_path", &metadata.exe_path);
    push_owner_line(&mut text, "exe_mtime", &metadata.exe_mtime);
    push_owner_line(&mut text, "team_id", &metadata.team_id);
    push_owner_line(&mut text, "cdhash", &metadata.cdhash);
    push_owner_line(&mut text, "acquired_at", &metadata.acquired_at);
    assert(text@ =~= owner_text(fields_of(*metadata)));
    string_from(&text)
}

// ---------------------------------------------------------------------------
// What is written is read back
// ---------------------------------------------------------------------------

/// A value that a line `key=value` carries through `str::lines` and `trim` unchanged: it
/// holds no line break and does not end with whitespace.
pub open spec fn owner_value_ok(v: Option<Seq<char>>) -> bool {
    match v {
        Some(s) => (forall|i: int| 0 <= i < s.len() ==> s[i] != '\n') && (s.len() == 0
            || !is_ws(s.last())),
        None => true,
    }
}

/// Owner metadata whose text values are all carried unchanged through a lock file.
pub open spec fn owner_fields_ok(m: OwnerFields) -> bool {
    &&& owner_value_ok(m.bundle_id)
    &&& owner_value_ok(m.exe_path)
    &&& owner_value_ok(m.exe_mtime)
    &&& owner_value_ok(m.team_id)
    &&& owner_value_ok(m.cdhash)
    &&& owner_value_ok(m.acquired_at)
}

/// The line that a field contributes to the lock file, as `str::lines` yields it.
spec fn owner_line_seq(key: Seq<char>, value: Option<Seq<char>>) -> Seq<Seq<char>> {
    match value {
        Some(v) => seq![key + "="@ + v],
        None => seq![],
    }
}

/// A key of the lock file: it starts with no whitespace and holds neither `=` nor a
/// line break.
spec fn owner_key_ok(key: Seq<char>) -> bool {
    &&& key.len() > 0
    &&& !is_ws(key[0])
    &&& forall|i: int| 0 <= i < key.len() ==> key[i] != '=' && key[i] != '\n'
}

/// `str::lines`, with its definition revealed only where a proof asks for it.
#[verifier::opaque]
spec fn lock_lines(s: Seq<char>) -> Seq<Seq<char>> {
    lines(s)
}

proof fn lemma_lines_from_line(body: Seq<char>, rest: Seq<char>, cur: Seq<char>)
    requires
        forall|i: int| 0 <= i < body.len() ==> body[i] != '\n',
    ensures
        lines_from(body + seq!['\n'] + rest, cur) == seq![strip_cr(cur + body)] + lines_from(
            rest,
            seq![],
        ),
    decreases body.len(),
{
    let s = body + seq!['\n'] + rest;
    if body.len() == 0 {
        assert(s[0] == '\n');
        assert(s.drop_first() =~= rest);
        assert(cur + body =~= cur);
    } else {
        assert(s[0] == body[0]);
        assert(s.drop_first() =~= body.drop_first() + seq!['\n'] + rest);
        lemma_lines_from_line(body.drop_first(), rest, cur.push(body[0]));
        assert(cur.push(body[0]) + body.drop_first() =~= cur + body);
    }
}

proof fn lemma_find_char_after(a: Seq<char>, b: Seq<char>, c: char)
    requires
        forall|i: int| 0 <= i < a.len() ==> a[i] != c,
        b.len() > 0,
        b[0] == c,
    ensures
        find_char(a + b, c) == Some(a.len() as int),
    decreases a.len(),
{
    let s = a + b;
    if a.len() == 0 {
        assert(s[0] == c);
    } else {
        assert(s[0] == a[0]);
        assert(s.drop_first() =~= a.drop_first() + b);
        lemma_find_char_after(a.drop_first(), b, c);
    }
}

/// The line of a field is read back as that field's key and value.
proof fn lemma_owner_line(key: Seq<char>, value: Option<Seq<char>>, rest: Seq<char>)
    requires
        owner_key_ok(key),
        owner_value_ok(value),
    ensures
        lock_lines(owner_line(key, value) + rest) == owner_line_seq(key, value) + lock_lines(rest),
        value is Some ==> ({
            let t = key + "="@ + value->0;
            &&& trim(t) == t
            &&& find_char(t, '=') == Some(key.len() as int)
            &&& t.take(key.len() as int) == key
            &&& t.skip(key.len() as int + 1) == value->0
        }),
{
    reveal_strlit("=");
    reveal_strlit("\n");
    match value {
        Some(v) => {
            let t = key + "="@ + v;
            assert(forall|i: int| 0 <= i < t.len() ==> t[i] != '\n') by {
                assert forall|i: int| 0 <= i < t.len() implies t[i] != '\n' by {
                    if i < key.len() {
                        assert(t[i] == key[i]);
                    } else if i > key.len() {
                        assert(t[i] == v[i - key.len() - 1]);
                    }
                }
            }
            assert(owner_line(key, value) + rest =~= t + seq!['\n'] + rest);
            lemma_lines_from_line(t, rest, seq![]);
            reveal(lock_lines);
            assert(seq![] + t =~= t);
            assert(t.last() != '\r') by {
                if v.len() > 0 {
                    assert(t.last() == v.last());
                } else {
                    assert(t.last() == '=');
                }
            }
            assert(strip_cr(t) == t);
            assert(t[0] == key[0]);
            assert(trim_start(t) == t);
            assert(!is_ws(t.last())) by {
                if v.len() > 0 {
                    assert(t.last() == v.last());
                } else {
                    assert(t.last() == '=');
                }
            }
            assert(trim_end(t) == t);
            assert(t =~= key + ("="@ + v));
            lemma_find_char_after(key, "="@ + v, '=');
            assert(t.take(key.len() as int) =~= key);
            assert(t.skip(key.len() as int + 1) =~= v);
        },
        None => {
            assert(owner_line(key, value) + rest =~= rest);
            assert(owner_line_seq(key, value) + lock_lines(rest) =~= lock_lines(rest));
        },
    }
}

proof fn lemma_fields_of_lines_push(ls: Seq<Seq<char>>, extra: Seq<Seq<char>>)
    requires
        extra.len() <= 1,
    ensures
        extra.len() == 0 ==> owner_fields_of_lines(ls + extra) == owner_fields_of_lines(ls),
        extra.len() == 1 ==> owner_fields_of_lines(ls + extra) == apply_owner_line(
            owner_fields_of_lines(ls),
            extra[0],
        ),
{
    if extra.len() == 0 {
        assert(ls + extra =~= ls);
    } else {
        assert((ls + extra).drop_last() =~= ls);
    }
}

/// The decimal text of a process id is a value that a lock file carries, and it is read
/// back as that id.
proof fn lemma_pid_value(p: u32)
    ensures
        owner_value_ok(Some(decimal(p as nat))),
        parse_unsigned(decimal(p as nat), u32::MAX as nat) == Some(p as nat),
{
    lemma_decimal(p as nat);
    let d = decimal(p as nat);
    assert(is_digit(d[0]));
    assert(unsigned_digits(d) == d);
    assert(is_digit(d.last()));
}

proof fn lemma_owner_keys()
    ensures
        owner_key_ok("pid"@),
        owner_key_ok("bundle_id"@),
        owner_key_ok("exe_path"@),
        owner_key_ok("exe_mtime"@),
        owner_key_ok("team_id"@),
        owner_key_ok("cdhash"@),
        owner_key_ok("acquired_at"@),
{
    reveal_strlit("pid");
    reveal_strlit("bundle_id");
    reveal_strlit("exe_path");
    reveal_strlit("exe_mtime");
    reveal_strlit("team_id");
    reveal_strlit("cdhash");
    reveal_strlit("acquired_at");
}

/// A text field's line sets that field and nothing else.
proof fn lemma_apply_owner_value(m: OwnerFields, key: Seq<char>, v: Seq<char>)
    requires
        owner_key_ok(key),
        owner_value_ok(Some(v)),
    ensures
        key == "bundle_id"@ ==> apply_owner_line(m, key + "="@ + v) == (OwnerFields {
            bundle_id: Some(v),
            ..m
        }),
        key == "exe_path"@ ==> apply_owner_line(m, key + "="@ + v) == (OwnerFields {
            exe_path: Some(v),
            ..m
        }),
        key == "exe_mtime"@ ==> apply_owner_line(m, key + "="@ + v) == (OwnerFields {
            exe_mtime: Some(v),
            ..m
        }),
        key == "team_id"@ ==> apply_owner_line(m, key + "="@ + v) == (OwnerFields {
            team_id: Some(v),
            ..m
        }),
        key == "cdhash"@ ==> apply_owner_line(m, key + "="@ + v) == (OwnerFields {
            cdhash: Some(v),
            ..m
        }),
        key == "acquired_at"@ ==> apply_owner_line(m, key + "="@ + v) == (OwnerFields {
            acquired_at: Some(v),
            ..m
        }),
{
    lemma_owner_line(key, Some(v), seq![]);
    reveal_strlit("pid");
    reveal_strlit("bundle_id");
    reveal_strlit("exe_path");
    reveal_strlit("exe_mtime");
    reveal_strlit("team_id");
    reveal_strlit("cdhash");
    reveal_strlit("acquired_at");
}

/// The `pid` line sets the process id and nothing else.
proof fn lemma_apply_owner_pid(m: OwnerFields, p: u32)
    ensures
        apply_owner_line(m, "pid"@ + "="@ + decimal(p as nat)) == (OwnerFields { pid: Some(p), ..m }),
{
    lemma_owner_keys();
    lemma_pid_value(p);
    lemma_owner_line("pid"@, Some(decimal(p as nat)), seq![]);
    reveal_strlit("pid");
}

/// One field's line, read after the lines before it.
proof fn lemma_owner_step(
    before: Seq<Seq<char>>,
    m: OwnerFields,
    key: Seq<char>,
    value: Option<Seq<char>>,
)
    requires
        owner_key_ok(key),
        owner_value_ok(value),
    ensures
        value is None ==> owner_fields_of_lines(before + owner_line_seq(key, value))
            == owner_fields_of_lines(before),
        value is Some ==> owner_fields_of_lines(before + owner_line_seq(key, value))
            == apply_owner_line(owner_fields_of_lines(before), key + "="@ + value->0),
{
    lemma_fields_of_lines_push(before, owner_line_seq(key, value));
}

spec fn pid_value(pid: Option<u32>) -> Option<Seq<char>> {
    match pid {
        Some(p) => Some(decimal(p as nat)),
        None => None,
    }
}

/// The lines of the lock file: one per field that is set, in the order of writing.
spec fn owner_lines(m: OwnerFields) -> Seq<Seq<char>> {
    owner_line_seq("pid"@, pid_value(m.pid)) + owner_line_seq("bundle_id"@, m.bundle_id)
        + owner_line_seq("exe_path"@, m.exe_path) + owner_line_seq("exe_mtime"@, m.exe_mtime)
        + owner_line_seq("team_id"@, m.team_id) + owner_line_seq("cdhash"@, m.cdhash)
        + owner_line_seq("acquired_at"@, m.acquired_at)
}

proof fn lemma_concat7<A>(a: Seq<A>, b: Seq<A>, c: Seq<A>, d: Seq<A>, e: Seq<A>, f: Seq<A>, g: Seq<A>)
    ensures
        a + b + c + d + e + f + g == a + (b + (c + (d + (e + (f + g))))),
{
    assert(a + b + c + d + e + f + g =~= a + (b + (c + (d + (e + (f + g))))));
}

proof fn lemma_owner_text_lines(m: OwnerFields)
    requires
        owner_fields_ok(m),
    ensures
        lock_lines(owner_text(m)) == owner_lines(m),
{
    lemma_owner_keys();
    if let Some(p) = m.pid {
        lemma_pid_value(p);
    }
    let a1 = owner_line("pid"@, pid_value(m.pid));
    let a2 = owner_line("bundle_id"@, m.bundle_id);
    let a3 = owner_line("exe_path"@, m.exe_path);
    let a4 = owner_line("exe_mtime"@, m.exe_mtime);
    let a5 = owner_line("team_id"@, m.team_id);
    let a6 = owner_line("cdhash"@, m.cdhash);
    let a7 = owner_line("acquired_at"@, m.acquired_at);
    let l1 = owner_line_seq("pid"@, pid_value(m.pid));
    let l2 = owner_line_seq("bundle_id"@, m.bundle_id);
    let l3 = owner_line_seq("exe_path"@, m.exe_path);
    let l4 = owner_line_seq("exe_mtime"@, m.exe_mtime);
    let l5 = owner_line_seq("team_id"@, m.team_id);
    let l6 = owner_line_seq("cdhash"@, m.cdhash);
    let l7 = owner_line_seq("acquired_at"@, m.acquired_at);
    let e: Seq<char> = seq![];
    let r6 = a6 + a7;
    let r5 = a5 + r6;
    let r4 = a4 + r5;
    let r3 = a3 + r4;
    let r2 = a2 + r3;
    let r1 = a1 + r2;
    assert(owner_text(m) == r1) by {
        lemma_concat7(a1, a2, a3, a4, a5, a6, a7);
    }
    assert(lock_lines(a7) == l7) by {
        lemma_owner_line("acquired_at"@, m.acquired_at, e);
        assert(a7 + e =~= a7);
        reveal(lock_lines);
        assert(lines(e) =~= Seq::<Seq<char>>::empty());
        assert(l7 + Seq::<Seq<char>>::empty() =~= l7);
    }
    assert(lock_lines(r6) == l6 + l7) by {
        lemma_owner_line("cdhash"@, m.cdhash, a7);
    }
    assert(lock_lines(r5) == l5 + (l6 + l7)) by {
        lemma_owner_line("team_id"@, m.team_id, r6);
    }
    assert(lock_lines(r4) == l4 + (l5 + (l6 + l7))) by {
        lemma_owner_line("exe_mtime"@, m.exe_mtime, r5);
    }
    assert(lock_lines(r3) == l3 + (l4 + (l5 + (l6 + l7)))) by {
        lemma_owner_line("exe_path"@, m.exe_path, r4);
    }
    assert(lock_lines(r2) == l2 + (l3 + (l4 + (l5 + (l6 + l7))))) by {
        lemma_owner_line("bundle_id"@, m.bundle_id, r3);
    }
    assert(lock_lines(r1) == l1 + (l2 + (l3 + (l4 + (l5 + (l6 + l7)))))) by {
        lemma_owner_line("pid"@, pid_value(m.pid), r2);
    }
    lemma_concat7(l1, l2, l3, l4, l5, l6, l7);
}

proof fn lemma_owner_lines_fields(m: OwnerFields)
    requires
        owner_fields_ok(m),
    ensures
        owner_fields_of_lines(owner_lines(m)) == m,
{
    lemma_owner_keys();
    let l1 = owner_line_seq("pid"@, pid_value(m.pid));
    let l2 = owner_line_seq("bundle_id"@, m.bundle_id);
    let l3 = owner_line_seq("exe_path"@, m.exe_path);
    let l4 = owner_line_seq("exe_mtime"@, m.exe_mtime);
    let l5 = owner_line_seq("team_id"@, m.team_id);
    let l6 = owner_line_seq("cdhash"@, m.cdhash);
    let l7 = owner_line_seq("acquired_at"@, m.acquired_at);
    let empty: Seq<Seq<char>> = seq![];
    assert(owner_lines(m) =~= empty + l1 + l2 + l3 + l4 + l5 + l6 + l7);
    assert(owner_fields_of_lines(empty) == no_fields());
    let s0 = no_fields();
    let s1 = OwnerFields { pid: m.pid, ..s0 };
    let s2 = OwnerFields { bundle_id: m.bundle_id, ..s1 };
    let s3 = OwnerFields { exe_path: m.exe_path, ..s2 };
    let s4 = OwnerFields { exe_mtime: m.exe_mtime, ..s3 };
    let s5 = OwnerFields { team_id: m.team_id, ..s4 };
    let s6 = OwnerFields { cdhash: m.cdhash, ..s5 };
    if let Some(p) = m.pid {
        lemma_pid_value(p);
    }
    lemma_owner_step(empty, s0, "pid"@, pid_value(m.pid));
    if let Some(p) = m.pid {
        lemma_apply_owner_pid(s0, p);
    }
    assert(owner_fields_of_lines(empty + l1) == s1);
    lemma_owner_step(empty + l1, s1, "bundle_id"@, m.bundle_id);
    if let Some(v) = m.bundle_id {
        lemma_apply_owner_value(s1, "bundle_id"@, v);
    }
    lemma_owner_step(empty + l1 + l2, s2, "exe_path"@, m.exe_path);
    if let Some(v) = m.exe_path {
        lemma_apply_owner_value(s2, "exe_path"@, v);
    }
    lemma_owner_step(empty + l1 + l2 + l3, s3, "exe_mtime"@, m.exe_mtime);
    if let Some(v) = m.exe_mtime {
        lemma_apply_owner_value(s3, "exe_mtime"@, v);
    }
    lemma_owner_step(empty + l1 + l2 + l3 + l4, s4, "team_id"@, m.team_id);
    if let Some(v) = m.team_id {
        lemma_apply_owner_value(s4, "team_id"@, v);
    }
    lemma_owner_step(empty + l1 + l2 + l3 + l4 + l5, s5, "cdhash"@, m.cdhash);
    if let Some(v) = m.cdhash {
        lemma_apply_owner_value(s5, "cdhash"@, v);
    }
    lemma_owner_step(empty + l1 + l2 + l3 + l4 + l5 + l6, s6, "acquired_at"@, m.acquired_at);
    if let Some(v) = m.acquired_at {
        lemma_apply_owner_value(s6, "acquired_at"@, v);
    }
}

/// What the owner writes into its lock file is read back as the same metadata, provided
/// its text values hold no line break and do not end with whitespace.
pub proof fn law_owner_metadata_round_trip(m: OwnerFields)
    requires
        owner_fields_ok(m),
    ensures
        owner_fields_of_lines(lines(owner_text(m))) == m,
{
    lemma_owner_text_lines(m);
    lemma_owner_lines_fields(m);
    assert(lines(owner_text(m)) == lock_lines(owner_text(m))) by {
        reveal(lock_lines);
    }
}

/// How the owner of the Fn key changed hands, as logged.
#[derive(Clone, Copy, Debug, PartialEq, Eq, Structural)]
pub enum FnOwnerReplacement {
    /// The previous owner's process had ended.
    StaleReaped,
    /// The previous owner's process lives but had released the lock.
    UnlockedReplaced,
    /// The previous metadata named no process.
    MetadataReplaced,
}

/// How the lock changed hands: nothing to log without previous metadata, or when it is
/// the same process and binary; else by whether the previous process lives.
pub fn fn_owner_replacement(
    previous: Option<&FnOwnerMetadata>,
    current: &FnOwnerMetadata,
    previous_alive: bool,
) -> (res: Option<FnOwnerReplacement>)
    ensures
        res == (match previous {
            None => None,
            Some(p) => if fields_of(*p) == no_fields() || (p.pid == current.pid && so(p.cdhash)
                == so(current.cdhash)) {
                None
            } else if p.pid is Some {
                if previous_alive {
                    Some(FnOwnerReplacement::UnlockedReplaced)
                } else {
                    Some(FnOwnerReplacement::StaleReaped)
                }
            } else {
                Some(FnOwnerReplacement::MetadataReplaced)
            },
        }),
{
    let p = match previous {
        Some(p) => p,
        None => {
            return None;
        },
    };
    if !has_fn_owner_metadata(p) {
        return None;
    }
    let same_hash = match (&p.cdhash, &current.cdhash) {
        (Some(a), Some(b)) => chars_eq(&chars_of(a.as_str()), &chars_of(b.as_str())),
        (None, None) => true,
        _ => false,
    };
    if p.pid == current.pid && same_hash {
        return None;
    }
    match p.pid {
        Some(_) => {
            if previous_alive {
                Some(FnOwnerReplacement::UnlockedReplaced)
            } else {
                Some(FnOwnerReplacement::StaleReaped)
            }
        },
        None => Some(FnOwnerReplacement::MetadataReplaced),
    }
}

// ---------------------------------------------------------------------------
// What the runtime reports
// ---------------------------------------------------------------------------

/// The latest events of the speech runtime.
#[derive(Debug)]
pub struct SpeechRuntimeEventState {
    pub last_event: Option<String>,
    pub last_event_at: Option<String>,
    pub recognition_mode: Option<String>,
    pub last_partial_length: Option<usize>,
    pub last_final_length: Option<usize>,
    pub last_error: Option<String>,
    pub last_paste_status: Option<String>,
}

/// `chrono::Local::now().to_rfc3339()`: the local time now. Nothing is stated of the text:
/// it depends on the clock and the machine's time zone.
#[verifier::external_body]
fn local_now_rfc3339() -> (res: String) {
    chrono::Local::now().to_rfc3339()
}

impl SpeechRuntimeEventState {
    /// A state with no event yet.
    pub fn new() -> (res: SpeechRuntimeEventState)
        ensures
            res.last_event is None,
            res.last_event_at is None,
            res.recognition_mode is None,
            res.last_partial_length is None,
            res.last_final_length is None,
            res.last_error is None,
            res.last_paste_status is None,
    {
        SpeechRuntimeEventState {
            last_event: None,
            last_event_at: None,
            recognition_mode: None,
            last_partial_length: None,
            last_final_length: None,
            last_error: None,
            last_paste_status: None,
        }
    }
}

/// The fields that a record of an event leaves alone.
pub open spec fn keeps_details(a: SpeechRuntimeEventState, b: SpeechRuntimeEventState) -> bool {
    &&& so(b.recognition_mode) == so(a.recognition_mode)
    &&& b.last_partial_length == a.last_partial_length
    &&& b.last_final_length == a.last_final_length
    &&& so(b.last_error) == so(a.last_error)
    &&& so(b.last_paste_status) == so(a.last_paste_status)
}

/// Records an event, stamped with the local time now.
pub fn record_runtime_event(state: &mut SpeechRuntimeEventState, event: &str)
    ensures
        so(final(state).last_event) == Some(event@),
        final(state).last_event_at is Some,
        keeps_details(*old(state), *final(state)),
{
    state.last_event = Some(string_from(&chars_of(event)));
    state.last_event_at = Some(local_now_rfc3339());
}

/// Records the length of a partial transcript.
pub fn record_partial_length(state: &mut SpeechRuntimeEventState, length: usize)
    ensures
        so(final(state).last_event) == Some("native-partial"@),
        final(state).last_event_at is Some,
        final(state).last_partial_length == Some(length),
        so(final(state).recognition_mode) == so(old(state).recognition_mode),
        final(state).last_final_length == old(state).last_final_length,
        so(final(state).last_error) == so(old(state).last_error),
        so(final(state).last_paste_status) == so(old(state).last_paste_status),
{
    state.last_event = Some(string_from(&chars_of("native-partial")));
    state.last_event_at = Some(local_now_rfc3339());
    state.last_partial_length = Some(length);
}

/// Records the length of a final transcript.
pub fn record_final_length(state: &mut SpeechRuntimeEventState, length: usize)
    ensures
        so(final(state).last_event) == Some("native-final"@),
        final(state).last_event_at is Some,
        final(state).last_final_length == Some(length),
        so(final(state).recognition_mode) == so(old(state).recognition_mode),
        final(state).last_partial_length == old(state).last_partial_length,
        so(final(state).last_error) == so(old(state).last_error),
        so(final(state).last_paste_status) == so(old(state).last_paste_status),
{
    state.last_event = Some(string_from(&chars_of("native-final")));
    state.last_event_at = Some(local_now_rfc3339());
    state.last_final_length = Some(length);
}

/// Records an error of the runtime.
pub fn record_runtime_error(state: &mut SpeechRuntimeEventState, error: &str)
    ensures
        so(final(state).last_event) == Some("error"@),
        final(state).last_event_at is Some,
        so(final(state).last_error) == Some(error@),
        so(final(state).recognition_mode) == so(old(state).recognition_mode),
        final(state).last_partial_length == old(state).last_partial_length,
        final(state).last_final_length == old(state).last_final_length,
        so(final(state).last_paste_status) == so(old(state).last_paste_status),
{
    state.last_event = Some(string_from(&chars_of("error")));
    state.last_event_at = Some(local_now_rfc3339());
    state.last_error = Some(string_from(&chars_of(error)));
}

/// Records how a paste went; the status is also the event.
pub fn record_paste_status(state: &mut SpeechRuntimeEventState, status: &str)
    ensures
        so(final(state).last_event) == Some(status@),
        final(state).last_event_at is Some,
        so(final(state).last_paste_status) == Some(status@),
        so(final(state).recognition_mode) == so(old(state).recognition_mode),
        final(state).last_partial_length == old(state).last_partial_length,
        final(state).last_final_length == old(state).last_final_length,
        so(final(state).last_error) == so(old(state).last_error),
{
    state.last_event = Some(string_from(&chars_of(status)));
    state.last_event_at = Some(local_now_rfc3339());
    state.last_paste_status = Some(string_from(&chars_of(status)));
}

/// Records a failed paste with its error.
pub fn record_paste_error(state: &mut SpeechRuntimeEventState, error: &str)
    ensures
        so(final(state).last_event) == Some("paste-error"@),
        final(state).last_event_at is Some,
        so(final(state).last_paste_status) == Some("error"@),
        so(final(state).last_error) == Some(error@),
        so(final(state).recognition_mode) == so(old(state).recognition_mode),
        final(state).last_partial_length == old(state).last_partial_length,
        final(state).last_final_length == old(state).last_final_length,
{
    state.last_event = Some(string_from(&chars_of("paste-error")));
    state.last_event_at = Some(local_now_rfc3339());
    state.last_paste_status = Some(string_from(&chars_of("error")));
    state.last_error = Some(string_from(&chars_of(error)));
}

/// The permissions that speech input needs.
#[derive(Clone, Debug)]
pub struct SpeechRuntimePermissions {
    pub microphone: bool,
    pub speech_recognition: bool,
    pub input_monitoring: bool,
    pub accessibility: bool,
}

/// Which process owns the Fn key, and whether it is this one.
#[derive(Debug)]
pub struct SpeechRuntimeOwner {
    pub fn_listener_owner: bool,
    pub owner_pid: Option<u32>,
    pub owner_bundle_id: Option<String>,
    pub owner_path: Option<String>,
    pub owner_team_id: Option<String>,
    pub owner_cdhash: Option<String>,
    pub owner_exe_mtime: Option<String>,
    pub owner_acquired_at: Option<String>,
    pub owner_is_current_process: bool,
    pub owner_matches_current_binary: Option<bool>,
    pub current_pid: u32,
    pub current_path: Option<String>,
    pub current_team_id: Option<String>,
    pub current_cdhash: Option<String>,
    pub current_exe_mtime: Option<String>,
    pub lock_path: Option<String>,
}

/// The state of the speech overlay window.
#[derive(Clone, Debug)]
pub struct SpeechRuntimeOverlay {
    pub window_exists: bool,
    pub window_visible: bool,
    pub listener_ready: bool,
    pub pending_toggle: bool,
}

/// The state of recognition.
#[derive(Debug)]
pub struct SpeechRuntimeSpeech {
    pub active: bool,
    pub recognition_mode: Option<String>,
    pub last_partial_length: Option<usize>,
    pub last_final_length: Option<usize>,
}

/// Where dictated text went last and where it may go.
#[derive(Debug)]
pub struct SpeechRuntimeWriteback {
    pub last_target_kind: Option<String>,
    pub last_target_bundle_id: Option<String>,
    pub last_target_pid: Option<i32>,
    pub last_target_window_label: Option<String>,
    pub last_target_request_id: Option<String>,
    pub active_popup_window_label: Option<String>,
    pub active_popup_request_id: Option<String>,
    pub registered_popup_target_count: usize,
    pub latest_registered_popup_pid: Option<u32>,
    pub latest_registered_popup_window_label: Option<String>,
    pub latest_registered_popup_request_id: Option<String>,
    pub last_paste_status: Option<String>,
    pub last_error: Option<String>,
}

/// Where the runtime logs, and its last event.
#[derive(Debug)]
pub struct SpeechRuntimeDiagnostics {
    pub log_path: String,
    pub last_event: Option<String>,
    pub last_event_at: Option<String>,
}

/// Everything the runtime reports about itself.
#[derive(Debug)]
pub struct SpeechRuntimeStatus {
    pub permissions: SpeechRuntimePermissions,
    pub owner: SpeechRuntimeOwner,
    pub overlay: SpeechRuntimeOverlay,
    pub speech: SpeechRuntimeSpeech,
    pub writeback: SpeechRuntimeWriteback,
    pub diagnostics: SpeechRuntimeDiagnostics,
}

/// How a paste into an external application ended when no acknowledgement came back.
#[derive(Clone, Copy, Debug, PartialEq, Eq, Structural)]
pub enum ExternalPasteDispatch {
    DispatchedUnverified,
    UnknownAfterDispatch,
}

/// The role of a process in speech input.
#[derive(Clone, Copy, Debug, PartialEq, Eq, Structural)]
pub enum SpeechProcessRole {
    /// The application's main window process, the one that may own speech input.
    CanonicalGui,
    /// Any other process of the application.
    Secondary,
}

/// The speech overlay is created only by the main process once it owns speech input.
pub fn overlay_creation_allowed(role: SpeechProcessRole, owner_epoch: Option<OwnerEpoch>) -> (res:
    bool)
    ensures
        res == (role == SpeechProcessRole::CanonicalGui && owner_epoch is Some),
{
    match role {
        SpeechProcessRole::CanonicalGui => owner_epoch.is_some(),
        SpeechProcessRole::Secondary => false,
    }
}


/// Why a popup insert request is refused, checked in order: a wrong token; no active
/// popup input; a request for another input than the active one of this process; an
/// insert of the same id already pending.
pub open spec fn ipc_request_refusal(
    token: Seq<char>,
    expected_token: Seq<char>,
    active: Option<PopupSpeechTarget>,
    own_pid: u32,
    request_id: Seq<char>,
    window_label: Seq<char>,
    insert_pending: bool,
) -> Option<Seq<char>> {
    if token != expected_token {
        Some("popup IPC token mismatch"@)
    } else {
        match active {
            None => Some("popup IPC target is no longer active"@),
            Some(t) => if t.request_id@ != request_id || t.window_label@ != window_label || t.pid
                != Some(own_pid) {
                Some("popup IPC request does not match the active target"@)
            } else if insert_pending {
                Some("popup IPC insert is already pending"@)
            } else {
                None
            },
        }
    }
}

/// Accepts or refuses a popup insert request that arrived over the private channel.
pub fn check_popup_ipc_request(
    token: &str,
    expected_token: &str,
    active: Option<&PopupSpeechTarget>,
    own_pid: u32,
    request_id: &str,
    window_label: &str,
    insert_pending: bool,
) -> (res: Result<(), String>)
    ensures
        match ipc_request_refusal(
            token@,
            expected_token@,
            match active {
                Some(t) => Some(*t),
                None => None,
            },
            own_pid,
            request_id@,
            window_label@,
            insert_pending,
        ) {
            Some(m) => (res matches Err(e) && e@ == m),
            None => res is Ok,
        },
{
    if !chars_eq_str(&chars_of(token), expected_token) {
        return Err(string_from(&chars_of("popup IPC token mismatch")));
    }
    let t = match active {
        None => {
            return Err(string_from(&chars_of("popup IPC target is no longer active")));
        },
        Some(t) => t,
    };
    if !chars_eq_str(&chars_of(t.request_id.as_str()), request_id) || !chars_eq_str(
        &chars_of(t.window_label.as_str()),
        window_label,
    ) || t.pid != Some(own_pid) {
        return Err(string_from(&chars_of("popup IPC request does not match the active target")));
    }
    if insert_pending {
        return Err(string_from(&chars_of("popup IPC insert is already pending")));
    }
    Ok(())
}

/// The answer to a popup insert request: the popup's acknowledgement (the length of the
/// text it inserted) must give the length of the text sent; no acknowledgement in time
/// is an error.
pub fn popup_ipc_ack_response(
    identity: SpeechLayerIdentity,
    request_id: String,
    window_label: String,
    insert_id: String,
    text_len: usize,
    acknowledged: Result<usize, String>,
) -> (res: PopupSpeechIpcResponse)
    ensures
        res.identity == identity,
        res.request_id == request_id,
        res.window_label == window_label,
        res.insert_id == insert_id,
        match acknowledged {
            Ok(n) => res.ok == (n == text_len) && res.text_len == Some(n) && (if n == text_len {
                res.error is None
            } else {
                res.error matches Some(e) && e@ == "popup IPC acknowledgement text length mismatch"@
            }),
            Err(e) => !res.ok && res.text_len is None && (res.error matches Some(m) && m@
                == "popup IPC acknowledgement timed out: "@ + e@),
        },
{
    match acknowledged {
        Ok(n) => PopupSpeechIpcResponse {
            ok: n == text_len,
            identity,
            request_id,
            window_label,
            insert_id,
            text_len: Some(n),
            error: if n != text_len {
                Some(string_from(&chars_of("popup IPC acknowledgement text length mismatch")))
            } else {
                None
            },
        },
        Err(e) => {
            let mut m = chars_of("popup IPC acknowledgement timed out: ");
            append_str(&mut m, e.as_str());
            PopupSpeechIpcResponse {
                ok: false,
                identity,
                request_id,
                window_label,
                insert_id,
                text_len: None,
                error: Some(string_from(&m)),
            }
        },
    }
}


// ---------------------------------------------------------------------------
// Registering a popup input, and the runtime status
// ---------------------------------------------------------------------------

/// The popup input that a window registers for dictation: its window and request, trimmed,
/// which must not be blank; its project and reason when they are not blank; the process,
/// the time and the private channel it is reached by.
pub open spec fn registered_target(
    window_label: Seq<char>,
    request_id: Seq<char>,
    reason: Option<Seq<char>>,
    project_path: Option<Seq<char>>,
    t: PopupSpeechTarget,
    pid: u32,
    updated_at: Seq<char>,
    ipc_socket_path: Option<Seq<char>>,
    ipc_token: Option<Seq<char>>,
) -> bool {
    &&& t.window_label@ == trim(window_label)
    &&& t.request_id@ == trim(request_id)
    &&& t.pid == Some(pid)
    &&& so(t.project_path) == normalized(project_path)
    &&& so(t.reason) == normalized(reason)
    &&& so(t.updated_at) == Some(updated_at)
    &&& so(t.ipc_socket_path) == ipc_socket_path
    &&& so(t.ipc_token) == ipc_token
}

/// The target that a popup window registers for dictation, or the refusal of a window or
/// request that is blank.
pub fn popup_speech_target_for(
    window_label: &str,
    request_id: &str,
    reason: Option<String>,
    project_path: Option<String>,
    pid: u32,
    updated_at: String,
    ipc_socket_path: Option<String>,
    ipc_token: Option<String>,
) -> (res: Result<PopupSpeechTarget, String>)
    ensures
        trim(window_label@).len() == 0 || trim(request_id@).len() == 0 ==> (res matches Err(e)
            && e@ == "window_label and request_id are required"@),
        trim(window_label@).len() > 0 && trim(request_id@).len() > 0 ==> (res matches Ok(t)
            && registered_target(
            window_label@,
            request_id@,
            so(reason),
            so(project_path),
            t,
            pid,
            updated_at@,
            so(ipc_socket_path),
            so(ipc_token),
        )),
{
    let label = trim_chars(&chars_of(window_label));
    let request = trim_chars(&chars_of(request_id));
    if label.len() == 0 || request.len() == 0 {
        return Err(string_from(&chars_of("window_label and request_id are required")));
    }
    Ok(PopupSpeechTarget {
        window_label: string_from(&label),
        request_id: string_from(&request),
        pid: Some(pid),
        project_path: normalize_optional_string(project_path),
        reason: normalize_optional_string(reason),
        updated_at: Some(updated_at),
        ipc_socket_path,
        ipc_token,
    })
}

/// Whether withdrawing `request_id` (trimmed) clears the active popup input: a blank
/// request clears any, another only the one it names.
pub fn withdrawal_clears_active(active: Option<&PopupSpeechTarget>, request_id: &str) -> (res: bool)
    ensures
        res == match active {
            None => false,
            Some(t) => trim(request_id@).len() == 0 || t.request_id@ == trim(request_id@),
        },
{
    let request = trim_chars(&chars_of(request_id));
    match active {
        None => false,
        Some(t) => request.len() == 0 || chars_eq_str(&request, t.request_id.as_str()),
    }
}

/// The registered popup input that was updated last (by the text of its update time,
/// missing counting as empty; the later one on a tie).
pub open spec fn latest_target(ts: Seq<PopupSpeechTarget>) -> Option<int>
    decreases ts.len(),
{
    if ts.len() == 0 {
        None
    } else {
        let k = ts.len() - 1;
        match latest_target(ts.drop_last()) {
            Some(b) => if crate::ordered::chars_lt(update_key(ts.last()), update_key(ts[b])) {
                Some(b)
            } else {
                Some(k)
            },
            None => Some(k),
        }
    }
}

/// The registered popup input that was updated last, as the status shows it.
pub fn latest_registered_popup_target(targets: &Vec<PopupSpeechTarget>) -> (res: Option<
    &PopupSpeechTarget,
>)
    ensures
        match latest_target(targets@) {
            Some(k) => res matches Some(t) && *t == targets@[k],
            None => res is None,
        },
{
    let mut best: Option<usize> = None;
    let mut i: usize = 0;
    assert(targets@.take(0) =~= seq![]);
    while i < targets.len()
        invariant
            i <= targets.len(),
            match best {
                Some(b) => b < i && latest_target(targets@.take(i as int)) == Some(b as int),
                None => latest_target(targets@.take(i as int)) is None,
            },
        decreases targets.len() - i,
    {
        let ghost t = targets@.take(i + 1);
        assert(t.drop_last() =~= targets@.take(i as int));
        assert(t.last() == targets@[i as int]);
        match best {
            Some(b) => {
                assert(t[b as int] == targets@[b as int]);
                let later = update_key_of(&targets[i]);
                let current = update_key_of(&targets[b]);
                if !crate::ordered::chars_less(&later, &current) {
                    best = Some(i);
                }
            },
            None => {
                best = Some(i);
            },
        }
        i += 1;
    }
    assert(targets@.take(i as int) =~= targets@);
    match best {
        Some(b) => Some(&targets[b]),
        None => None,
    }
}

/// The writeback part of the speech status: the last captured target as it was captured,
/// the active popup input, how many popup inputs are registered and which of them was
/// updated last, and how the last paste went.
pub fn speech_runtime_writeback(
    last_target_kind: Option<String>,
    last_target_bundle_id: Option<String>,
    last_target_pid: Option<i32>,
    last_target_window_label: Option<String>,
    last_target_request_id: Option<String>,
    active: Option<&PopupSpeechTarget>,
    registry: &Vec<PopupSpeechTarget>,
    last_paste_status: Option<String>,
    last_error: Option<String>,
) -> (res: SpeechRuntimeWriteback)
    ensures
        res.last_target_kind == last_target_kind,
        res.last_target_bundle_id == last_target_bundle_id,
        res.last_target_pid == last_target_pid,
        res.last_target_window_label == last_target_window_label,
        res.last_target_request_id == last_target_request_id,
        match active {
            Some(t) => so(res.active_popup_window_label) == Some(t.window_label@) && so(
                res.active_popup_request_id,
            ) == Some(t.request_id@),
            None => res.active_popup_window_label is None && res.active_popup_request_id is None,
        },
        res.registered_popup_target_count == registry.len(),
        match latest_target(registry@) {
            Some(k) => res.latest_registered_popup_pid == registry@[k].pid && so(
                res.latest_registered_popup_window_label,
            ) == Some(registry@[k].window_label@) && so(res.latest_registered_popup_request_id)
                == Some(registry@[k].request_id@),
            None => res.latest_registered_popup_pid is None
                && res.latest_registered_popup_window_label is None
                && res.latest_registered_popup_request_id is None,
        },
        res.last_paste_status == last_paste_status,
        res.last_error == last_error,
{
    let (active_label, active_request) = match active {
        Some(t) => (Some(copy_str(&t.window_label)), Some(copy_str(&t.request_id))),
        None => (None, None),
    };
    let (latest_pid, latest_label, latest_request) = match latest_registered_popup_target(registry) {
        Some(t) => (t.pid, Some(copy_str(&t.window_label)), Some(copy_str(&t.request_id))),
        None => (None, None, None),
    };
    SpeechRuntimeWriteback {
        last_target_kind,
        last_target_bundle_id,
        last_target_pid,
        last_target_window_label,
        last_target_request_id,
        active_popup_window_label: active_label,
        active_popup_request_id: active_request,
        registered_popup_target_count: registry.len(),
        latest_registered_popup_pid: latest_pid,
        latest_registered_popup_window_label: latest_label,
        latest_registered_popup_request_id: latest_request,
        last_paste_status,
        last_error,
    }
}

/// The owner that the status reports: the one on record; else this process when it holds
/// the Fn listener; else an owner of whom nothing is known.
pub open spec fn reported_owner(
    fn_listener_owner: bool,
    recorded: Option<FnOwnerMetadata>,
    current: FnOwnerMetadata,
) -> OwnerFields {
    match recorded {
        Some(r) => fields_of(r),
        None => if fn_listener_owner {
            fields_of(current)
        } else {
            no_fields()
        },
    }
}

/// Whether two owners run the same binary: by code directory hash when both have one, else
/// by executable path when both have one, else unknown.
pub open spec fn same_binary(owner: OwnerFields, current: OwnerFields) -> Option<bool> {
    match (owner.cdhash, current.cdhash) {
        (Some(a), Some(b)) => Some(a == b),
        _ => match (owner.exe_path, current.exe_path) {
            (Some(a), Some(b)) => Some(a == b),
            _ => None,
        },
    }
}

fn metadata_of_fields(m: &FnOwnerMetadata) -> (res: FnOwnerMetadata)
    ensures
        fields_of(res) == fields_of(*m),
{
    FnOwnerMetadata {
        pid: m.pid,
        bundle_id: copy_opt_str(&m.bundle_id),
        exe_path: copy_opt_str(&m.exe_path),
        exe_mtime: copy_opt_str(&m.exe_mtime),
        team_id: copy_opt_str(&m.team_id),
        cdhash: copy_opt_str(&m.cdhash),
        acquired_at: copy_opt_str(&m.acquired_at),
    }
}

/// The owner part of the speech status: whether this process holds the Fn listener, the
/// owner on record (see `reported_owner`), whether that owner is this process and runs
/// this binary, and what this process is.
pub fn speech_runtime_owner(
    fn_listener_owner: bool,
    recorded: Option<FnOwnerMetadata>,
    current: &FnOwnerMetadata,
    current_pid: u32,
    lock_path: Option<String>,
) -> (res: SpeechRuntimeOwner)
    ensures
        ({
            let owner = reported_owner(fn_listener_owner, recorded, *current);
            &&& res.fn_listener_owner == fn_listener_owner
            &&& res.owner_pid == owner.pid
            &&& so(res.owner_bundle_id) == owner.bundle_id
            &&& so(res.owner_path) == owner.exe_path
            &&& so(res.owner_team_id) == owner.team_id
            &&& so(res.owner_cdhash) == owner.cdhash
            &&& so(res.owner_exe_mtime) == owner.exe_mtime
            &&& so(res.owner_acquired_at) == owner.acquired_at
            &&& res.owner_is_current_process == (owner.pid == Some(current_pid))
            &&& res.owner_matches_current_binary == same_binary(owner, fields_of(*current))
            &&& res.current_pid == current_pid
            &&& so(res.current_path) == so(current.exe_path)
            &&& so(res.current_team_id) == so(current.team_id)
            &&& so(res.current_cdhash) == so(current.cdhash)
            &&& so(res.current_exe_mtime) == so(current.exe_mtime)
            &&& res.lock_path == lock_path
        }),
{
    let owner = match recorded {
        Some(r) => r,
        None => if fn_listener_owner {
            metadata_of_fields(current)
        } else {
            FnOwnerMetadata {
                pid: None,
                bundle_id: None,
                exe_path: None,
                exe_mtime: None,
                team_id: None,
                cdhash: None,
                acquired_at: None,
            }
        },
    };
    let matches = owner_matches_current_binary(&owner, current);
    SpeechRuntimeOwner {
        fn_listener_owner,
        owner_pid: owner.pid,
        owner_is_current_process: owner.pid == Some(current_pid),
        owner_matches_current_binary: matches,
        owner_bundle_id: owner.bundle_id,
        owner_path: owner.exe_path,
        owner_team_id: owner.team_id,
        owner_cdhash: owner.cdhash,
        owner_exe_mtime: owner.exe_mtime,
        owner_acquired_at: owner.acquired_at,
        current_pid,
        current_path: copy_opt_str(&current.exe_path),
        current_team_id: copy_opt_str(&current.team_id),
        current_cdhash: copy_opt_str(&current.cdhash),
        current_exe_mtime: copy_opt_str(&current.exe_mtime),
        lock_path,
    }
}


// ---------------------------------------------------------------------------
// Capturing the target when dictation starts
// ---------------------------------------------------------------------------

/// A process id that fits an `i32`.
pub open spec fn pid_i32(pid: Option<u32>) -> Option<i32> {
    match pid {
        Some(p) => if p <= i32::MAX {
            Some(p as i32)
        } else {
            None
        },
        None => None,
    }
}

/// Whether the target held now is kept while this application's own process is frontmost:
/// it belongs to another process, and no request process is frontmost.
pub open spec fn keeps_retained(retained: Option<&SpeechTarget>, frontmost_pid: i32, is_mcp_request: bool) -> bool {
    !is_mcp_request && match retained {
        Some(t) => match t {
            SpeechTarget::ExternalApp { pid, .. } => pid matches Some(p) && p != frontmost_pid,
            SpeechTarget::IteratePopupInput { pid, .. } => pid matches Some(p) && p != frontmost_pid,
        },
        None => false,
    }
}

/// What capturing the dictation target decides, from what is frontmost.
#[derive(Debug)]
pub enum CaptureDecision {
    /// Hold this popup input as the target.
    Retain(SpeechTarget),
    /// Keep the target held now.
    Preserve,
    /// Capture the focused input of this application's process `pid`; a failure fails the
    /// capture.
    CaptureOwnFocus(i32),
    /// Capture the focused input of the external application's process `pid`; see
    /// `capture_focus_result`.
    CaptureExternalFocus(i32),
    /// Clear the target held now and fail with this message.
    ClearAndFail(String),
}

/// Is `d` the decision to hold the popup input named `window_label` and `request_id`, of
/// process `pid`?
pub open spec fn retains_popup(d: CaptureDecision, window_label: Seq<char>, request_id: Seq<char>, pid: Option<i32>) -> bool {
    d matches CaptureDecision::Retain(SpeechTarget::IteratePopupInput { window_label: w, request_id: r, pid: p })
        && w@ == window_label && r@ == request_id && p == pid
}

fn popup_input(t: &PopupSpeechTarget, pid: Option<i32>) -> (res: CaptureDecision)
    ensures
        retains_popup(res, t.window_label@, t.request_id@, pid),
{
    CaptureDecision::Retain(
        SpeechTarget::IteratePopupInput {
            window_label: copy_str(&t.window_label),
            request_id: copy_str(&t.request_id),
            pid,
        },
    )
}

/// Decides which target dictation writes into, from the frontmost application's bundle
/// identifier and process, this application's active popup input, the registered popup
/// inputs, whether the frontmost process is a request process, and the target held now.
///
/// When this application is frontmost with a known process, the popup input of that
/// process is held: the active one, else the one it registered last. Failing that, the
/// target held now is kept while it belongs to another process and no request process is
/// frontmost; else the focused input of the process is captured. Without a known process,
/// the active popup input is held, or the target is cleared and the capture fails. Another
/// application's focused input is captured when its process is known; else the target is
/// cleared and the capture fails.
pub fn capture_target_step(
    bundle_id: &str,
    frontmost_pid: Option<i32>,
    active_popup: Option<&PopupSpeechTarget>,
    registered: &Vec<PopupSpeechTarget>,
    is_mcp_request: bool,
    retained: Option<&SpeechTarget>,
) -> (res: CaptureDecision)
    ensures
        bundle_id@ == own_bundle_id() ==> match frontmost_pid {
            Some(pid) => if active_popup matches Some(t) && pid_i32(t.pid) == Some(pid) {
                retains_popup(res, active_popup.unwrap().window_label@, active_popup.unwrap().request_id@, Some(pid))
            } else if pid >= 0 && latest_of_pid(registered@, pid as u32) is Some {
                retains_popup(
                    res,
                    registered@[latest_of_pid(registered@, pid as u32).unwrap()].window_label@,
                    registered@[latest_of_pid(registered@, pid as u32).unwrap()].request_id@,
                    Some(pid),
                )
            } else if keeps_retained(retained, pid, is_mcp_request) {
                res is Preserve
            } else {
                res matches CaptureDecision::CaptureOwnFocus(p) && p == pid
            },
            None => match active_popup {
                Some(t) => retains_popup(res, t.window_label@, t.request_id@, pid_i32(t.pid)),
                None => res matches CaptureDecision::ClearAndFail(m) && m@
                    == "frontmost app is iterate but no target pid was found"@,
            },
        },
        bundle_id@ != own_bundle_id() ==> match frontmost_pid {
            Some(pid) => res matches CaptureDecision::CaptureExternalFocus(p) && p == pid,
            None => res matches CaptureDecision::ClearAndFail(m) && m@
                == "frontmost external app did not provide a PID"@,
        },
{
    if is_own_bundle_id(bundle_id) {
        match frontmost_pid {
            Some(pid) => {
                match active_popup {
                    Some(t) => {
                        if popup_target_pid_i32(t) == Some(pid) {
                            return popup_input(t, Some(pid));
                        }
                    },
                    None => {},
                }
                match registered_popup_speech_target_for_pid(registered, pid) {
                    Some(t) => {
                        return popup_input(&t, Some(pid));
                    },
                    None => {},
                }
                if should_preserve_retained_target_for_own_main_process(retained, pid, is_mcp_request) {
                    CaptureDecision::Preserve
                } else {
                    CaptureDecision::CaptureOwnFocus(pid)
                }
            },
            None => match active_popup {
                Some(t) => {
                    let p = popup_target_pid_i32(t);
                    popup_input(t, p)
                },
                None => CaptureDecision::ClearAndFail(
                    string_from(&chars_of("frontmost app is iterate but no target pid was found")),
                ),
            },
        }
    } else {
        match frontmost_pid {
            Some(pid) => CaptureDecision::CaptureExternalFocus(pid),
            None => CaptureDecision::ClearAndFail(
                string_from(&chars_of("frontmost external app did not provide a PID")),
            ),
        }
    }
}

/// The message of a failed focus capture for process `pid`.
pub open spec fn focus_failure_message(pid: i32, error: Seq<char>) -> Seq<char> {
    "failed to capture the focused input for pid "@ + int_text(pid as int) + ": "@ + error
}

/// What capturing the focused input of process `pid` of the application `bundle_id` gives,
/// once the capture was tried (`captured` is its error, if any): the external target with
/// how its focus was captured, or the failure. A capture in this application's own process
/// has no fallback; in another one, accessibility's "no value" falls back to the
/// frontmost process. A failure leaves the target held now as it was.
pub fn capture_focus_result(
    bundle_id: &str,
    pid: i32,
    own_app: bool,
    captured: Option<&FocusedElementCaptureError>,
) -> (res: Result<(SpeechTarget, FocusDispatchMode), String>)
    ensures
        match captured {
            None => (res matches Ok((SpeechTarget::ExternalApp { bundle_id: b, pid: p }, m)) && b@
                == bundle_id@ && p == Some(pid) && m == FocusDispatchMode::Exact),
            Some(e) => if !own_app && e.ax_error == Some(AX_ERROR_NO_VALUE) {
                (res matches Ok((SpeechTarget::ExternalApp { bundle_id: b, pid: p }, m)) && b@
                    == bundle_id@ && p == Some(pid) && m == FocusDispatchMode::FrontmostPidFallback)
            } else {
                res matches Err(m) && m@ == focus_failure_message(pid, e.message@)
            },
        },
{
    let mode = match captured {
        None => FocusDispatchMode::Exact,
        Some(e) => {
            if !own_app && e.allows_frontmost_pid_fallback() {
                FocusDispatchMode::FrontmostPidFallback
            } else {
                let mut m = chars_of("failed to capture the focused input for pid ");
                let t = i32_text(pid);
                append_str(&mut m, t.as_str());
                append_str(&mut m, ": ");
                append_str(&mut m, e.message.as_str());
                proof {
                    reveal_strlit("failed to capture the focused input for pid ");
                    reveal_strlit(": ");
                }
                assert(m@ =~= focus_failure_message(pid, e.message@));
                return Err(string_from(&m));
            }
        },
    };
    Ok((SpeechTarget::ExternalApp { bundle_id: string_from(&chars_of(bundle_id)), pid: Some(pid) }, mode))
}

} // verus!
