use cunzhi::launch::{
    get_last_focused_window, is_standalone_mcp_launch, set_last_focused_window,
    should_show_main_window_on_launch, FocusTracker, LaunchEnvironment,
};

fn env() -> LaunchEnvironment {
    LaunchEnvironment {
        standalone_mode: false,
        mcp_request_file: false,
        on_windows: false,
        debug_build: false,
        dev_show_main: false,
    }
}

#[test]
fn explicit_show_main_window_launch_is_visible() {
    assert!(should_show_main_window_on_launch(
        &vec!["iterate".to_string(), "--show-main-window".to_string()],
        env()
    ));
}

#[test]
fn request_launches_are_standalone() {
    assert!(is_standalone_mcp_launch(
        &vec!["iterate".to_string(), "--mcp-request".to_string(), "f".to_string()],
        env()
    ));
    assert!(!is_standalone_mcp_launch(
        &vec!["iterate".to_string(), "x".to_string(), "--mcp-request".to_string()],
        env()
    ));
    assert!(is_standalone_mcp_launch(&vec!["iterate".to_string(), "--ui".to_string()], env()));
    let mut e = env();
    e.mcp_request_file = true;
    assert!(is_standalone_mcp_launch(&vec!["iterate".to_string()], e));
}

#[test]
fn a_plain_launch_stays_hidden_except_on_windows() {
    assert!(!should_show_main_window_on_launch(&vec!["iterate".to_string()], env()));
    let mut e = env();
    e.on_windows = true;
    assert!(should_show_main_window_on_launch(&vec!["iterate".to_string()], e));
    let mut d = env();
    d.debug_build = true;
    d.dev_show_main = true;
    assert!(should_show_main_window_on_launch(&vec!["iterate".to_string()], d));
}

#[test]
fn the_last_focused_window_is_remembered() {
    let mut tracker = FocusTracker::new();
    assert_eq!(get_last_focused_window(&tracker), None);
    set_last_focused_window(&mut tracker, "popup-1");
    set_last_focused_window(&mut tracker, "main");
    assert_eq!(get_last_focused_window(&tracker), Some("main".to_string()));
}
