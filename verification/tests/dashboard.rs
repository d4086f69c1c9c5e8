//! The dashboard and the status report.
use anonet::dashboard::{
    background_finished, background_requested, bridge_text, candidate_cells, candidates_title, format_system_time, header_text, help_text,
    isolation_cells, isolation_title, killswitch_text, plan_radical, services_text, sparkline_data, tail_log,
    Action, Dashboard, Key, Mode, ServicesInfo,
    LOG_TAIL_LINES, RADICAL_TTL_SECS,
};
use anonet::cli::{advance_timed, TimedStep};
use anonet::killswitch::KillSwitch;
use anonet::status::format_status;
use anonet::telemetry::{CandidateStatus, HealthSample, HealthStatus, StreamEvent};

fn at(addr: &str) -> ServicesInfo {
    ServicesInfo { socks_addr: addr.to_string() }
}

fn press(d: &mut Dashboard, keys: &str) -> Action {
    let mut last = Action::Nothing;
    for c in keys.chars() {
        last = d.handle_key(Key::Char(c), false);
    }
    last
}

#[test]
fn reports_direct_connection_and_stopped_services_by_default() {
    let health = HealthStatus::default();
    let text = format_status("127.0.0.1:9450", &health, &None);
    assert!(text.contains("socks_listening: 127.0.0.1:9450"));
    assert!(text.contains("active_bridge: none (direct connection)"));
    assert!(text.contains("dns_shim: stopped"));
    assert!(text.contains("full_anonymization: stopped"));
    assert!(text.contains("last_error: none"));
}

#[test]
fn reports_active_bridge_and_dns_shim_when_present() {
    let mut health = HealthStatus::default();
    health.active_bridge_line = Some("Bridge obfs4 1.2.3.4:443 ...".to_string());
    health.transparent_enabled = true;
    health.record_error(0, "boom".to_string());
    let dns_addr = Some("127.0.0.1:9535".to_string());
    let text = format_status("127.0.0.1:9450", &health, &dns_addr);
    assert!(text.contains("active_bridge: Bridge obfs4 1.2.3.4:443"));
    assert!(text.contains("dns_shim: 127.0.0.1:9535"));
    assert!(text.contains("full_anonymization: running"));
    assert!(text.contains("last_error: boom"));
}

#[test]
fn status_report_is_exact() {
    let mut health = HealthStatus::default();
    health.socks_connections_total = 3;
    assert_eq!(
        format_status("127.0.0.1:9450", &health, &None),
        "socks_listening: 127.0.0.1:9450\nsocks_connections_active: 0\nsocks_connections_total: 3\ndns_shim: stopped\nactive_bridge: none (direct connection)\nbridge_candidates: 0\nconsecutive_failures: 0\ntotal_bridge_switches: 0\nfull_anonymization: stopped\nlast_error: none\n"
    );
}

#[test]
fn telemetry_counts_and_records() {
    let mut h = HealthStatus::default();
    h.connection_opened();
    h.connection_opened();
    h.connection_closed();
    assert_eq!((h.socks_connections_total, h.socks_connections_active), (2, 1));
    h.seed_candidates(&vec![(0, "a".to_string()), (1, "b".to_string())]);
    h.record_candidate_result(1, "b", false, 7);
    h.record_candidate_result(2, "c", true, 8);
    assert_eq!(h.candidates.len(), 3);
    assert_eq!(h.candidates[0].last_success, None);
    assert_eq!(h.candidates[1].last_success, Some(false));
    assert_eq!(h.candidates[2].line, "c");
    h.push_stream_event(StreamEvent { at: 1, status: "NEW".to_string(), target: "x:1".to_string() });
    assert_eq!(h.stream_events.len(), 1);
    h.record_error(5, "bad".to_string());
    assert_eq!(h.last_error.as_ref().unwrap().at, 5);
    h.clear_error();
    assert!(h.last_error.is_none());
}

#[test]
fn commands_quit_check_and_toggle() {
    let mut d = Dashboard::new(None);
    assert!(matches!(d.handle_key(Key::Esc, false), Action::Quit));
    assert!(matches!(press(&mut d, "q"), Action::Quit));
    assert!(matches!(press(&mut d, "c"), Action::CheckNow));
    assert_eq!(d.status_line, "requested an immediate bridge health check");
    assert!(matches!(press(&mut d, "x"), Action::Nothing));
    assert!(matches!(d.handle_key(Key::Other, false), Action::Nothing));
    let mut running = Dashboard::new(Some("127.0.0.1:53".to_string()));
    assert!(matches!(press(&mut running, "n"), Action::StopDnsShim));
    assert_eq!(running.dns_shim_addr, None);
    assert_eq!(running.status_line, "DNS shim stopped");
}

#[test]
fn dns_address_is_typed() {
    let mut d = Dashboard::new(None);
    press(&mut d, "n");
    assert_eq!(d.status_text(&None), "DNS shim bind address> 127.0.0.1:9535\u{2588}");
    d.handle_key(Key::Backspace, false);
    press(&mut d, "6 ");
    match d.handle_key(Key::Enter, false) {
        Action::StartDnsShim { typed, address } => {
            assert_eq!(typed, "127.0.0.1:9536 ");
            assert_eq!(address, "127.0.0.1:9536");
        }
        _ => panic!("the shim is to start"),
    }
    d.dns_started("127.0.0.1:9536", Ok(()), Some("127.0.0.1:9536".to_string()));
    assert_eq!(d.status_line, "DNS shim started on 127.0.0.1:9536");
    assert_eq!(d.dns_shim_addr, Some("127.0.0.1:9536".to_string()));
    d.dns_started("x", Err("DNS shim is already running".to_string()), None);
    assert_eq!(d.status_line, "failed to start DNS shim: DNS shim is already running");
    d.dns_addr_rejected("abc");
    assert_eq!(d.status_line, "'abc' is not a valid address (expected host:port)");
    d.dns_changed(None);
    assert_eq!(d.dns_shim_addr, None);
    d.input_failed("gone");
    assert_eq!(d.status_line, "input error: gone");
}

#[test]
fn bridge_line_is_typed() {
    let mut d = Dashboard::new(None);
    press(&mut d, "a ");
    assert!(matches!(d.handle_key(Key::Enter, false), Action::Nothing));
    assert_eq!(d.status_line, "cancelled (empty bridge line)");
    press(&mut d, "aBridg");
    press(&mut d, "x");
    d.handle_key(Key::Backspace, false);
    press(&mut d, "e q");
    assert_eq!(d.status_text(&None), "add bridge> Bridge q\u{2588}");
    match d.handle_key(Key::Enter, false) {
        Action::TryAddBridge { line } => assert_eq!(line, "Bridge q"),
        _ => panic!("the bridge is to be tried"),
    }
    assert_eq!(d.status_line, "checking new bridge... (watch the candidates table)");
    press(&mut d, "aq");
    d.handle_key(Key::Esc, false);
    assert_eq!(d.status_line, "cancelled");
    assert!(matches!(d.mode, Mode::Normal));
}

#[test]
fn scoped_switch_asks_for_a_user() {
    let mut d = Dashboard::new(None);
    press(&mut d, "ks1x0-0");
    assert_eq!(d.status_text(&None), "scoped kill switch, protect uid> 100\u{2588}");
    assert!(matches!(d.handle_key(Key::Enter, false), Action::EnableScoped { uid: 100 }));
    d.scoped_enabled(100, Ok(()));
    assert_eq!(d.status_line, "scoped kill switch enabled, confining uid 100 to loopback");
    d.scoped_enabled(100, Err("denied".to_string()));
    assert_eq!(d.status_line, "failed to enable scoped kill switch: denied");
    press(&mut d, "ks");
    assert!(matches!(d.handle_key(Key::Enter, false), Action::Nothing));
    assert_eq!(d.status_line, "'' is not a valid UID, cancelled");
    press(&mut d, "ks99999999999");
    assert!(matches!(d.handle_key(Key::Enter, false), Action::Nothing));
    assert_eq!(d.status_line, "'99999999999' is not a valid UID, cancelled");
}

#[test]
fn disruptive_actions_need_confirmation() {
    let mut d = Dashboard::new(None);
    assert!(matches!(press(&mut d, "kr"), Action::Nothing));
    assert!(matches!(press(&mut d, "n"), Action::Nothing));
    assert!(matches!(press(&mut d, "y"), Action::EnableRadical));
    assert_eq!(d.status_line, "enabling radical kill switch...");
    assert_eq!(RADICAL_TTL_SECS, 300);
    assert!(matches!(press(&mut d, "t"), Action::Nothing));
    assert!(matches!(press(&mut d, "q"), Action::Nothing));
    assert!(matches!(press(&mut d, "y"), Action::EnableFullAnon));
    assert_eq!(d.status_line, "starting full anonymization...");
    assert!(matches!(d.handle_key(Key::Char('t'), true), Action::DisableFullAnon));
    assert_eq!(d.status_line, "stopping full anonymization...");
}

#[test]
fn radical_switch_is_lifted_after_five_minutes() {
    assert_eq!(plan_radical(Err("no id".to_string())).unwrap_err(), "no id");
    let plan = plan_radical(Ok(7)).unwrap();
    let switch = KillSwitch::Radical { anonet_uid: 7 };
    assert_eq!((plan.switch, plan.ttl_secs), (switch, Some(300)));
    let step = advance_timed(plan.begin(), true);
    assert_eq!(step, TimedStep::Wait { switch, secs: 300 });
    let step = advance_timed(step, true);
    assert_eq!(step, TimedStep::Disable { switch });
    assert_eq!(advance_timed(step, false), TimedStep::Done);
    assert_eq!(advance_timed(plan.begin(), false), TimedStep::Done);
}

#[test]
fn switches_are_disabled_with_one_key() {
    let mut d = Dashboard::new(None);
    assert!(matches!(press(&mut d, "ds"), Action::DisableScoped));
    assert!(matches!(press(&mut d, "dr"), Action::DisableRadical));
    press(&mut d, "dx");
    assert!(matches!(d.mode, Mode::ConfirmDisable));
    d.scoped_disabled(Ok(()));
    assert_eq!(d.status_line, "scoped kill switch disabled");
    d.scoped_disabled(Err("e".to_string()));
    assert_eq!(d.status_line, "failed to disable scoped kill switch: e");
    d.radical_disabled(Ok(()));
    assert_eq!(d.status_line, "radical kill switch disabled");
    d.radical_disabled(Err("e".to_string()));
    assert_eq!(d.status_line, "failed to disable radical kill switch: e");
}

#[test]
fn help_names_the_keys() {
    assert!(help_text(&Mode::Normal).contains("t toggle full anonymization"));
    for mode in [
        Mode::ConfirmDisable,
        Mode::AddBridge { buffer: String::new() },
        Mode::KillSwitchMenu,
        Mode::EnterScopedUid { buffer: String::new() },
        Mode::ConfirmRadicalEnable,
        Mode::EnterDnsAddr { buffer: String::new() },
        Mode::ConfirmFullAnon,
    ] {
        assert!(help_text(&mode).ends_with("Esc cancel"));
    }
}

#[test]
fn errors_stay_on_the_status_line() {
    let mut h = HealthStatus::default();
    let d = Dashboard::new(None);
    assert_eq!(d.status_text(&h.last_error), "");
    h.record_error(1, "needs root".to_string());
    assert_eq!(d.status_text(&h.last_error), "ERROR: needs root");
    background_requested(&mut h);
    assert_eq!(d.status_text(&h.last_error), "");
    background_finished(&mut h, &Ok(()), 2);
    assert!(h.last_error.is_none());
    background_finished(&mut h, &Err("nft failed".to_string()), 3);
    assert_eq!(d.status_text(&h.last_error), "ERROR: nft failed");
    background_finished(&mut h, &Ok(()), 4);
    assert_eq!(d.status_text(&h.last_error), "ERROR: nft failed");
}

#[test]
fn panels_are_written() {
    assert_eq!(header_text(3661), "anonet \u{2014} live status        uptime 01:01:01");
    assert_eq!(header_text(360_000), "anonet \u{2014} live status        uptime 100:00:00");
    let mut h = HealthStatus::default();
    assert_eq!(
        services_text(&at("127.0.0.1:9450"), &h, &None),
        "SOCKS5:    UP on 127.0.0.1:9450   (0 connections total, 0 active)\nDNS shim:  not running  (n to start)\nBridges:   none configured (running in direct mode, a to add one)\nFull anonymization: stopped  (t to start)"
    );
    h.record_candidate_result(0, "b", true, 12);
    h.transparent_enabled = true;
    assert_eq!(
        services_text(&at("a"), &h, &Some("d".to_string())),
        "SOCKS5:    UP on a   (0 connections total, 0 active)\nDNS shim:  UP on d  (n to stop)\nBridges:   1 configured \u{2014} see the candidates table below\nFull anonymization: RUNNING  (t to stop)"
    );
    h.last_check_at = Some(1_000_000_000);
    assert_eq!(
        bridge_text(&h, 3_999_999_999),
        "active bridge:       (direct, no bridge)\nconsecutive failures: 0\ntotal failovers:      0\nlast check:           2s ago\nlast switch:          never"
    );
    assert_eq!(format_system_time(Some(2), 1), "just now");
    assert_eq!(killswitch_text(Some(true), None), "scoped: ENABLED    radical: unknown (needs root)");
    assert_eq!(killswitch_text(Some(false), Some(true)), "scoped: disabled    radical: ENABLED");
    assert_eq!(candidates_title(2), "Bridge candidates (2, * = active)");
    assert_eq!(isolation_title(1), "Isolation buckets (1)");
    assert_eq!(isolation_cells("alice", 3, 61), vec!["alice", "3", "61s"]);
}

#[test]
fn candidate_rows_are_written() {
    let row = |last_success, last_latency_ms| CandidateStatus {
        index: 4,
        line: "L".to_string(),
        last_success,
        last_latency_ms,
    };
    assert_eq!(candidate_cells(&row(Some(true), Some(9)), Some(4)), vec!["*4", "L", "ok", "9ms"]);
    assert_eq!(candidate_cells(&row(Some(false), None), Some(1)), vec![" 4", "L", "FAIL", "-"]);
    assert_eq!(candidate_cells(&row(None, None), None), vec![" 4", "L", "-", "-"]);
}

#[test]
fn failed_checks_are_zero_in_the_sparkline() {
    let history = vec![
        HealthSample { at: 1, success: true, latency_ms: 5 },
        HealthSample { at: 2, success: false, latency_ms: 6 },
    ];
    assert_eq!(sparkline_data(&history), vec![5, 0]);
}

#[test]
fn log_tail_is_the_last_lines() {
    assert_eq!(LOG_TAIL_LINES, 10);
    assert_eq!(tail_log("a\nb\r\nc\n", 2), vec!["b", "c"]);
    assert_eq!(tail_log("a\n\nb", 10), vec!["a", "", "b"]);
    assert!(tail_log("", 10).is_empty());
}
