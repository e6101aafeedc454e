use cunzhi::bridge_origin::{
    bridge_args_match, bridge_daemon_domain, bridge_daemon_service,
    bridge_recovery_cooldown_remaining_for_state, classify_bridge_origin_state,
    ensure_ownership_action, manual_recovery_cooldown_remaining, parse_port_owner_pid,
    BridgeOriginState, EnsureOwnershipAction, BRIDGE_HUNG_CONFIRMATION_FAILURES,
};
use cunzhi::connectivity::{
    optional_bool_label, parse_connection_status_public_snapshot, unknown_public_snapshot,
    ConnectionStatusFields,
};

fn fields() -> ConnectionStatusFields {
    ConnectionStatusFields {
        diagnosis_code: None,
        public_healthy: None,
        public_ws_healthy: None,
        public_ws_auth_required: None,
        raw_public_probe_ok: None,
        public_health_source: None,
        root_tunnel_authoritative_up: false,
    }
}

#[test]
fn parses_connection_status_ok_with_root_ha_source() {
    let mut f = fields();
    f.diagnosis_code = Some("ok".to_string());
    f.public_healthy = Some(true);
    f.public_health_source = Some("root_tunnel_ha".to_string());
    f.raw_public_probe_ok = Some(false);
    f.public_ws_healthy = Some(true);
    f.public_ws_auth_required = Some(true);
    f.root_tunnel_authoritative_up = true;
    let snapshot = parse_connection_status_public_snapshot(&f);

    assert_eq!(snapshot.effective_ok, Some(true));
    assert_eq!(snapshot.health_source, "root_tunnel_ha");
    assert_eq!(snapshot.diagnosis_code.as_deref(), Some("ok"));
    assert_eq!(snapshot.raw_public_probe_ok, Some(false));
}

#[test]
fn treats_auth_required_websocket_as_protected_when_status_is_ok() {
    let mut f = fields();
    f.diagnosis_code = Some("ok".to_string());
    f.public_healthy = Some(true);
    f.raw_public_probe_ok = Some(true);
    f.public_ws_healthy = Some(true);
    f.public_ws_auth_required = Some(true);
    let snapshot = parse_connection_status_public_snapshot(&f);

    assert_eq!(snapshot.effective_ok, Some(true));
    assert_eq!(snapshot.health_source, "auth_required");
}

#[test]
fn falls_back_to_root_ha_when_public_fields_are_missing() {
    let mut f = fields();
    f.root_tunnel_authoritative_up = true;
    let snapshot = parse_connection_status_public_snapshot(&f);

    assert_eq!(snapshot.effective_ok, Some(true));
    assert_eq!(snapshot.health_source, "root_tunnel_ha");
}

#[test]
fn marks_public_down_from_connection_status_without_using_unknown() {
    let mut f = fields();
    f.diagnosis_code = Some("public_tunnel_down_local_ok".to_string());
    f.public_healthy = Some(false);
    f.public_health_source = Some("none".to_string());
    f.raw_public_probe_ok = Some(false);
    f.public_ws_healthy = Some(false);
    f.public_ws_auth_required = Some(false);
    let snapshot = parse_connection_status_public_snapshot(&f);

    assert_eq!(snapshot.effective_ok, Some(false));
    assert_eq!(snapshot.health_source, "connection_status");
    assert_eq!(snapshot.raw_public_probe_ok, Some(false));
}

#[test]
fn missing_connection_status_is_unknown_not_false() {
    let snapshot = unknown_public_snapshot("connection_status_timeout");

    assert_eq!(snapshot.effective_ok, None);
    assert_eq!(snapshot.health_source, "connection_status_timeout");
    assert_eq!(optional_bool_label(snapshot.effective_ok), "unknown");
}

#[test]
fn classifies_healthy_bridge_origin() {
    assert_eq!(
        classify_bridge_origin_state(true, true, true, 0),
        BridgeOriginState::Healthy
    );
}

#[test]
fn classifies_transient_and_confirmed_hung_bridge_origin() {
    assert_eq!(
        classify_bridge_origin_state(false, true, true, 1),
        BridgeOriginState::HungTransient
    );
    assert_eq!(
        classify_bridge_origin_state(false, true, true, BRIDGE_HUNG_CONFIRMATION_FAILURES),
        BridgeOriginState::HungConfirmed
    );
}

#[test]
fn classifies_wrong_owner_and_origin_down() {
    assert_eq!(
        classify_bridge_origin_state(false, false, true, 0),
        BridgeOriginState::WrongOwner
    );
    assert_eq!(
        classify_bridge_origin_state(false, false, false, 0),
        BridgeOriginState::OriginDown
    );
}

#[test]
fn failed_manual_recovery_uses_short_retry_cooldown() {
    assert_eq!(manual_recovery_cooldown_remaining(1000, 900, 0), 200);
    assert_eq!(manual_recovery_cooldown_remaining(1000, 0, 990), 50);
    assert_eq!(manual_recovery_cooldown_remaining(1000, 0, 930), 0);
    assert_eq!(manual_recovery_cooldown_remaining(1000, 950, 990), 250);
    assert_eq!(manual_recovery_cooldown_remaining(1000, 0, 0), 0);
}

#[test]
fn confirmed_bridge_origin_failures_bypass_success_cooldown() {
    assert_eq!(
        bridge_recovery_cooldown_remaining_for_state(1000, BridgeOriginState::HungConfirmed, 950, 0),
        0
    );
    assert_eq!(
        bridge_recovery_cooldown_remaining_for_state(1000, BridgeOriginState::OriginDown, 950, 0),
        0
    );
    assert_eq!(
        bridge_recovery_cooldown_remaining_for_state(1000, BridgeOriginState::WrongOwner, 950, 0),
        0
    );
}

#[test]
fn transient_bridge_origin_failure_keeps_success_cooldown() {
    assert_eq!(
        bridge_recovery_cooldown_remaining_for_state(1000, BridgeOriginState::HungTransient, 950, 0),
        250
    );
}

#[test]
fn confirmed_bridge_origin_failures_keep_failed_retry_cooldown() {
    assert_eq!(
        bridge_recovery_cooldown_remaining_for_state(1000, BridgeOriginState::HungConfirmed, 950, 990),
        50
    );
}

#[test]
fn bridge_args_match_accepts_split_or_equals_port() {
    assert!(bridge_args_match(
        "/Applications/iterate.app/Contents/MacOS/iterate --bridge-only --port 8080",
        8080
    ));
    assert!(bridge_args_match(
        "/Applications/iterate.app/Contents/MacOS/iterate --bridge-only --port=8080",
        8080
    ));
}

#[test]
fn bridge_args_match_rejects_gui_or_wrong_port() {
    assert!(!bridge_args_match(
        "/Applications/iterate.app/Contents/MacOS/iterate",
        8080
    ));
    assert!(!bridge_args_match(
        "/Applications/iterate.app/Contents/MacOS/iterate --bridge-only --port 8099",
        8080
    ));
}

#[test]
fn hung_confirmation_needs_three_failures() {
    assert_eq!(
        classify_bridge_origin_state(false, true, true, 2),
        BridgeOriginState::HungTransient
    );
    assert_eq!(
        classify_bridge_origin_state(false, true, true, 4),
        BridgeOriginState::HungConfirmed
    );
}

#[test]
fn manual_cooldown_never_exceeds_the_success_window() {
    for since in 0..400u64 {
        assert!(manual_recovery_cooldown_remaining(1000 + since, 1000, 0) <= 300);
    }
}

#[test]
fn daemon_names_carry_the_user_id() {
    assert_eq!(bridge_daemon_domain("501"), "gui/501");
    assert_eq!(
        bridge_daemon_service("501"),
        "gui/501/com.cunzhi.iterate.bridge"
    );
}

#[test]
fn port_owner_pid_reads_the_first_pid() {
    assert_eq!(parse_port_owner_pid("4242\n"), Some(4242));
    assert_eq!(parse_port_owner_pid(""), None);
}

#[test]
fn public_fields_without_diagnosis_decide_health() {
    let mut f = fields();
    f.public_healthy = Some(true);
    f.public_ws_healthy = Some(false);
    let snapshot = parse_connection_status_public_snapshot(&f);
    assert_eq!(snapshot.effective_ok, Some(false));
    assert_eq!(snapshot.health_source, "connection_status");

    let snapshot = parse_connection_status_public_snapshot(&fields());
    assert_eq!(snapshot.effective_ok, None);
    assert_eq!(snapshot.health_source, "connection_status_unknown");
}

#[test]
fn daemon_recovery_starts_from_what_was_observed() {
    assert_eq!(
        ensure_ownership_action(true, "manual_recover_bridge_origin", false, false),
        EnsureOwnershipAction::WaitAlreadyRunning
    );
    assert_eq!(
        ensure_ownership_action(false, "watchdog_origin_down", true, false),
        EnsureOwnershipAction::ReportOwned
    );
    assert_eq!(
        ensure_ownership_action(false, "manual_recover_bridge_origin", true, false),
        EnsureOwnershipAction::GiveUp
    );
    assert_eq!(
        ensure_ownership_action(false, "watchdog_origin_down", false, true),
        EnsureOwnershipAction::Restart
    );
}
