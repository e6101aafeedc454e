use cunzhi::port_status::{order_workspace_ports, registered_ports, PortRouter, RouteAction};
use cunzhi::port_status::{
    build_workspace_port_candidates, is_stale_busy_status, is_stale_busy_status_at,
    port_status_has_capability, port_status_is_idle, port_status_supports_required_capabilities,
    runtime_diagnostics_from_status, short_hash, stale_interaction_transient_secs,
    PortStatusProbe, RuntimeStatusProbe, DEFAULT_STALE_INTERACTION_TRANSIENT_SECS,
    HTML_ARTIFACT_CAPABILITY,
};

fn busy_status(
    active_request_id: Option<&str>,
    interaction_phase: Option<&str>,
    timestamp: &str,
) -> PortStatusProbe {
    PortStatusProbe {
        version: None,
        runtime: None,
        is_busy: true,
        busy_since: Some(timestamp.to_string()),
        active_request_id: active_request_id.map(ToOwned::to_owned),
        active_workspace: Some("/Users/test/project".to_string()),
        interaction_phase: interaction_phase.map(ToOwned::to_owned),
        phase_since: Some(timestamp.to_string()),
        active_serve_request_id: Some("serve-123".to_string()),
        ready_since: None,
        capabilities: Vec::new(),
        frontend_capabilities: Vec::new(),
    }
}

fn idle_status_with_html_artifact_capability() -> PortStatusProbe {
    PortStatusProbe {
        version: None,
        runtime: None,
        is_busy: false,
        busy_since: None,
        active_request_id: None,
        active_workspace: None,
        interaction_phase: Some("idle".to_string()),
        phase_since: None,
        active_serve_request_id: None,
        ready_since: None,
        capabilities: vec![HTML_ARTIFACT_CAPABILITY.to_string()],
        frontend_capabilities: Vec::new(),
    }
}

#[test]
fn workspace_port_candidates_continue_after_busy_cluster() {
    let candidates = build_workspace_port_candidates(&vec![5316, 5317, 5318], 5311);
    assert_eq!(candidates.first().copied(), Some(5319));
}

#[test]
fn port_status_supports_html_artifact_capability_object() {
    assert!(port_status_supports_required_capabilities(
        &idle_status_with_html_artifact_capability()
    ));
}

#[test]
fn port_status_rejects_legacy_service_without_capabilities() {
    let legacy_status = PortStatusProbe {
        version: None,
        runtime: None,
        is_busy: false,
        busy_since: None,
        active_request_id: None,
        active_workspace: None,
        interaction_phase: Some("idle".to_string()),
        phase_since: None,
        active_serve_request_id: None,
        ready_since: None,
        capabilities: Vec::new(),
        frontend_capabilities: Vec::new(),
    };

    assert!(!port_status_supports_required_capabilities(&legacy_status));
}

#[test]
fn runtime_diagnostics_includes_selected_port_and_runtime_metadata() {
    let status = PortStatusProbe {
        version: Some("0.5.8".to_string()),
        runtime: Some(RuntimeStatusProbe {
            pid: Some(1234),
            exe_path: Some("/Applications/iterate.app/Contents/MacOS/iterate".to_string()),
            exe_mtime: Some("2026-06-02T08:00:00Z".to_string()),
            exe_sha256: Some("sha256:abcdef0123456789abcdef".to_string()),
        }),
        is_busy: false,
        busy_since: None,
        active_request_id: None,
        active_workspace: None,
        interaction_phase: Some("idle".to_string()),
        phase_since: None,
        active_serve_request_id: None,
        ready_since: None,
        capabilities: vec![HTML_ARTIFACT_CAPABILITY.to_string()],
        frontend_capabilities: Vec::new(),
    };

    let diagnostics = runtime_diagnostics_from_status(
        5312,
        "/Users/test/project",
        Some("/Users/test/other"),
        Some(&status),
    );

    assert!(diagnostics.contains("port=5312"));
    assert!(diagnostics.contains("request_workspace=/Users/test/project"));
    assert!(diagnostics.contains("registered_workspace=/Users/test/other"));
    assert!(diagnostics.contains("version=0.5.8"));
    assert!(diagnostics.contains("pid=1234"));
    assert!(diagnostics.contains("/Applications/iterate.app/Contents/MacOS/iterate"));
    assert!(diagnostics.contains("sha256:abcdef012"));
}

#[test]
fn stale_busy_status_respects_interaction_phase() {
    let stale_after = DEFAULT_STALE_INTERACTION_TRANSIENT_SECS;
    let missing_request_id = busy_status(None, None, "2026-05-07T23:20:07Z");
    let old_legacy_active_request_id = busy_status(Some("req_123"), None, "2000-01-01T00:00:00Z");
    let old_waiting_user = busy_status(
        Some("req_123"),
        Some("waiting_user"),
        "2000-01-01T00:00:00Z",
    );
    let old_starting_gui = busy_status(
        Some("req_123"),
        Some("starting_gui"),
        "2000-01-01T00:00:00Z",
    );
    let fresh_starting_gui = busy_status(
        Some("req_123"),
        Some("starting_gui"),
        &chrono::Utc::now().to_rfc3339(),
    );
    let failed = busy_status(
        Some("req_123"),
        Some("failed"),
        &chrono::Utc::now().to_rfc3339(),
    );

    assert!(is_stale_busy_status(&missing_request_id, stale_after));
    assert!(!is_stale_busy_status(&old_legacy_active_request_id, stale_after));
    assert!(!is_stale_busy_status(&old_waiting_user, stale_after));
    assert!(is_stale_busy_status(&old_starting_gui, stale_after));
    assert!(!is_stale_busy_status(&fresh_starting_gui, stale_after));
    assert!(is_stale_busy_status(&failed, stale_after));
}

#[test]
fn workspace_port_candidates_start_from_preferred_when_workspace_has_no_ports() {
    let candidates = build_workspace_port_candidates(&vec![], 5311);
    assert_eq!(candidates.first().copied(), Some(5311));
}

#[test]
fn port_candidates_wrap_back_to_the_first_port() {
    let candidates = build_workspace_port_candidates(&vec![5398, 5320], 5311);
    assert_eq!(candidates, vec![5399, 5311, 5312, 5313, 5314, 5315, 5316, 5317, 5318, 5319, 5320, 5321, 5322, 5323, 5324, 5325, 5326, 5327, 5328, 5329, 5330, 5331, 5332, 5333, 5334, 5335, 5336, 5337, 5338, 5339, 5340, 5341, 5342, 5343, 5344, 5345, 5346, 5347, 5348, 5349, 5350, 5351, 5352, 5353, 5354, 5355, 5356, 5357, 5358, 5359, 5360, 5361, 5362, 5363, 5364, 5365, 5366, 5367, 5368, 5369, 5370, 5371, 5372, 5373, 5374, 5375, 5376, 5377, 5378, 5379, 5380, 5381, 5382, 5383, 5384, 5385, 5386, 5387, 5388, 5389, 5390, 5391, 5392, 5393, 5394, 5395, 5396, 5397, 5398]);
    let high = build_workspace_port_candidates(&vec![u16::MAX], 5311);
    assert_eq!(high.len(), (u16::MAX - 5311) as usize);
    assert_eq!(high[0], 5311);
    assert_eq!(build_workspace_port_candidates(&vec![], 5400).len(), 89);
}

#[test]
fn idle_needs_the_capability_and_no_work() {
    let mut status = idle_status_with_html_artifact_capability();
    assert!(port_status_is_idle(&status));
    status.is_busy = true;
    assert!(!port_status_is_idle(&status));
    status.capabilities.clear();
    status.frontend_capabilities = vec!["html_artifact".to_string()];
    assert!(port_status_has_capability(&status, "html_artifact"));
    assert!(!port_status_has_capability(&status, "other"));
}

#[test]
fn hashes_are_cut_after_nineteen_bytes() {
    assert_eq!(short_hash(None), "-");
    assert_eq!(short_hash(Some("short")), "short");
    assert_eq!(short_hash(Some("0123456789012345678")), "0123456789012345678");
    assert_eq!(short_hash(Some("01234567890123456789")), "0123456789012345678...");
    let none = runtime_diagnostics_from_status(1, "w", None, None);
    assert_eq!(
        none,
        "port=1 request_workspace=w registered_workspace=- version=- pid=- exe_path=- exe_mtime=- exe_sha256=-"
    );
}

#[test]
fn ages_are_measured_against_the_given_clock() {
    let status = busy_status(Some("r"), Some(" queued "), "2026-01-01T00:00:00Z");
    let then = 1767225600i64;
    assert!(!is_stale_busy_status_at(&status, (then + 29, 999_999_999), 30));
    assert!(is_stale_busy_status_at(&status, (then + 30, 0), 30));
    let mut unparsable = busy_status(Some("r"), Some("cleaning"), "yesterday");
    assert!(!is_stale_busy_status_at(&unparsable, (then, 0), 30));
    unparsable.phase_since = None;
    unparsable.busy_since = Some("2026-01-01T00:00:00+08:00".to_string());
    assert!(is_stale_busy_status_at(&unparsable, (then, 0), 30));
}

#[test]
fn stale_age_setting_needs_a_positive_integer() {
    assert_eq!(stale_interaction_transient_secs(None), 30);
    assert_eq!(stale_interaction_transient_secs(Some("45")), 45);
    assert_eq!(stale_interaction_transient_secs(Some("+7")), 7);
    assert_eq!(stale_interaction_transient_secs(Some("0")), 30);
    assert_eq!(stale_interaction_transient_secs(Some("-5")), 30);
    assert_eq!(stale_interaction_transient_secs(Some(" 5")), 30);
}

#[test]
fn a_request_goes_to_an_idle_port_of_its_workspace() {
    let (mut router, action) = PortRouter::start(vec![5315, 5313], 5311);
    assert_eq!(action, RouteAction::CheckIdle(5315));
    assert_eq!(router.step(false), RouteAction::CheckIdle(5313));
    assert_eq!(router.step(true), RouteAction::Use(5313));
}

#[test]
fn a_busy_workspace_gets_a_new_service() {
    let (mut router, _) = PortRouter::start(vec![5316], 5311);
    assert_eq!(router.step(false), RouteAction::CheckRunning(5317));
    assert_eq!(router.step(true), RouteAction::CheckRunning(5318));
    assert_eq!(router.step(false), RouteAction::CheckOccupied(5318));
    assert_eq!(router.step(true), RouteAction::CheckRunning(5319));
    assert_eq!(router.step(false), RouteAction::CheckOccupied(5319));
    assert_eq!(router.step(false), RouteAction::StartService(5319));
    assert_eq!(router.step(true), RouteAction::Use(5319));
}

#[test]
fn without_a_free_port_the_request_falls_back() {
    let (mut router, action) = PortRouter::start(vec![5399], 5311);
    assert_eq!(action, RouteAction::CheckIdle(5399));
    let mut next = router.step(false);
    while let RouteAction::CheckRunning(_) = next {
        next = router.step(true);
    }
    assert_eq!(next, RouteAction::Use(5399));
    let (_, empty) = PortRouter::start(vec![], 5400);
    assert_eq!(empty, RouteAction::CheckRunning(5311));
}

#[test]
fn workspace_ports_prefer_deeper_workspaces_then_lower_ports() {
    assert_eq!(order_workspace_ports(&vec![(2, 5312), (3, 5320), (2, 5311)]), vec![5320, 5311, 5312]);
    assert_eq!(
        registered_ports(&vec!["5320".to_string(), "x".to_string(), "5312".to_string(), "70000".to_string()]),
        vec![5312, 5320]
    );
    assert_eq!(registered_ports(&vec![".alloc.lock".to_string()]), vec![5311]);
}

#[test]
fn every_route_is_chosen_within_the_routers_bound() {
    for answers in [false, true] {
        let (mut router, mut action) = PortRouter::start(vec![5320, 5321], 5311);
        let bound = router.existing.len() + 3 * router.candidates.len();
        let mut steps = 0;
        while !matches!(action, RouteAction::Use(_)) {
            action = router.step(answers);
            steps += 1;
            assert!(steps <= bound);
        }
    }
}
