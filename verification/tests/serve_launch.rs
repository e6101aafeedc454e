use cunzhi::serve_launch::{
    launch_candidates, serve_args, serve_startup_timeout_ms, ServeAction, ServeEvent, ServeStart,
};

#[test]
fn service_arguments_name_the_port_and_the_workspace() {
    assert_eq!(serve_args(5312, ""), vec!["--serve", "--port", "5312"]);
    assert_eq!(
        serve_args(5313, "/Users/me/proj"),
        vec!["--serve", "--port", "5313", "--workspace", "/Users/me/proj"]
    );
}

#[test]
fn startup_timeout_defaults_to_ten_seconds() {
    assert_eq!(serve_startup_timeout_ms(None), 10000);
    assert_eq!(serve_startup_timeout_ms(Some("2500")), 2500);
    assert_eq!(serve_startup_timeout_ms(Some("+0")), 0);
    assert_eq!(serve_startup_timeout_ms(Some("1.5")), 10000);
    assert_eq!(serve_startup_timeout_ms(Some("-1")), 10000);
}

#[test]
fn launchers_are_the_executable_places_once_then_the_bare_name() {
    let probed = vec![
        ("/opt/iterate".to_string(), true),
        ("/usr/bin/iterate".to_string(), false),
        ("/opt/iterate".to_string(), true),
        ("/Applications/iterate.app/Contents/MacOS/iterate".to_string(), true),
    ];
    assert_eq!(
        launch_candidates(&probed),
        vec!["/opt/iterate", "/Applications/iterate.app/Contents/MacOS/iterate", "iterate"]
    );
    assert_eq!(launch_candidates(&vec![]), vec!["iterate"]);
}

#[test]
fn a_service_start_tries_launchers_until_one_runs() {
    let (mut start, action) =
        ServeStart::start(vec!["/a".to_string(), "/b".to_string(), "iterate".to_string()]);
    assert_eq!(action, ServeAction::Spawn("/a".to_string()));
    assert_eq!(start.step(ServeEvent::Spawned(false)), ServeAction::Spawn("/b".to_string()));
    assert_eq!(start.step(ServeEvent::Spawned(true)), ServeAction::Probe);
    assert_eq!(start.step(ServeEvent::Healthy(false)), ServeAction::Probe);
    assert_eq!(start.step(ServeEvent::Healthy(true)), ServeAction::Ready);
}

#[test]
fn a_service_that_never_answers_is_stopped() {
    let (mut start, _) = ServeStart::start(vec!["iterate".to_string()]);
    assert_eq!(start.step(ServeEvent::Spawned(true)), ServeAction::Probe);
    assert_eq!(start.step(ServeEvent::TimeUp), ServeAction::StopAndGiveUp);
    let (mut none_runs, _) = ServeStart::start(vec!["iterate".to_string()]);
    assert_eq!(none_runs.step(ServeEvent::Spawned(false)), ServeAction::GiveUp);
    let (_, empty) = ServeStart::start(vec![]);
    assert_eq!(empty, ServeAction::GiveUp);
}
