//! How the application starts: whether a launch serves a request from the command line,
//! whether it shows its main window, and which window had the focus last.
use vstd::prelude::*;

use crate::ordered::string_views;
use crate::text::{chars_eq_str, chars_of, string_from};

verus! {

broadcast use vstd::string::group_string_axioms;

/// What the launch's environment says.
#[derive(Clone, Copy, Debug)]
pub struct LaunchEnvironment {
    /// `ITERATE_STANDALONE_MODE` is set.
    pub standalone_mode: bool,
    /// `ITERATE_MCP_REQUEST_FILE` is set.
    pub mcp_request_file: bool,
    /// The application runs on Windows.
    pub on_windows: bool,
    /// The application was built with debug assertions.
    pub debug_build: bool,
    /// `ITERATE_DEV_SHOW_MAIN` is set to `1`.
    pub dev_show_main: bool,
}

/// Whether some argument is `arg`.
pub open spec fn has_arg(args: Seq<Seq<char>>, arg: Seq<char>) -> bool {
    exists|i: int| 0 <= i < args.len() && #[trigger] args[i] == arg
}

/// A launch that serves a single request: set up by the environment, or asked for by
/// `--mcp-request` right after the program, or by `--ui` anywhere.
pub open spec fn standalone_launch(args: Seq<Seq<char>>, env: LaunchEnvironment) -> bool {
    ||| env.standalone_mode
    ||| env.mcp_request_file
    ||| (args.len() > 1 && args[1] == "--mcp-request"@)
    ||| has_arg(args, "--ui"@)
}

fn any_arg(args: &Vec<String>, arg: &str) -> (res: bool)
    ensures
        res == has_arg(string_views(args@), arg@),
{
    let ghost v = string_views(args@);
    let mut i: usize = 0;
    while i < args.len()
        invariant
            v == string_views(args@),
            i <= args.len(),
            forall|j: int| 0 <= j < i ==> v[j] != arg@,
        decreases args.len() - i,
    {
        if chars_eq_str(&chars_of(args[i].as_str()), arg) {
            assert(v[i as int] == arg@);
            return true;
        }
        i += 1;
    }
    false
}

/// Whether this launch serves a single request from the command line.
pub fn is_standalone_mcp_launch(args: &Vec<String>, env: LaunchEnvironment) -> (res: bool)
    ensures
        res == standalone_launch(string_views(args@), env),
{
    env.standalone_mode || env.mcp_request_file || (args.len() > 1 && chars_eq_str(
        &chars_of(args[1].as_str()),
        "--mcp-request",
    )) || any_arg(args, "--ui")
}

/// Whether the main window shows at launch: for a request, when asked for by
/// `--show-main-window`, on Windows when started without arguments, and in a debug build
/// when `ITERATE_DEV_SHOW_MAIN=1`.
pub open spec fn shows_main_window(args: Seq<Seq<char>>, env: LaunchEnvironment) -> bool {
    ||| standalone_launch(args, env)
    ||| has_arg(args, "--show-main-window"@)
    ||| (env.on_windows && args.len() == 1)
    ||| (!env.on_windows && env.debug_build && env.dev_show_main)
}

/// Whether the main window shows at launch.
pub fn should_show_main_window_on_launch(args: &Vec<String>, env: LaunchEnvironment) -> (res: bool)
    ensures
        res == shows_main_window(string_views(args@), env),
{
    if is_standalone_mcp_launch(args, env) {
        return true;
    }
    if any_arg(args, "--show-main-window") {
        return true;
    }
    if env.on_windows {
        args.len() == 1
    } else {
        env.debug_build && env.dev_show_main
    }
}

/// The window that had the focus last.
#[derive(Debug)]
pub struct FocusTracker {
    pub last_focused_window: Option<String>,
}

impl FocusTracker {
    /// No window has had the focus yet.
    pub fn new() -> (res: FocusTracker)
        ensures
            res.last_focused_window is None,
    {
        FocusTracker { last_focused_window: None }
    }
}

/// Remembers the window that has the focus now.
pub fn set_last_focused_window(tracker: &mut FocusTracker, label: &str)
    ensures
        final(tracker).last_focused_window matches Some(l) && l@ == label@,
{
    tracker.last_focused_window = Some(string_from(&chars_of(label)));
}

/// The window that had the focus last, if one had.
pub fn get_last_focused_window(tracker: &FocusTracker) -> (res: Option<String>)
    ensures
        match tracker.last_focused_window {
            Some(l) => (res matches Some(r) && r@ == l@),
            None => res is None,
        },
{
    match &tracker.last_focused_window {
        Some(l) => Some(string_from(&chars_of(l.as_str()))),
        None => None,
    }
}

} // verus!
