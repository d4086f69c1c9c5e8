//! Bridges, discovery, failover and startup.
use anonet::bridges::{
    parse_bridge_line, probe_target, timeout_message, BridgeManager, HealthResult, HealthSearch, ProbeOutcome, SearchStep,
    Storage, TransportBinary,
};
use anonet::cli::{
    choose_bootstrap, disabled_message, enabled_message, mode_label, parse_pt_spec,
    parse_pt_specs, plan_enable, progress_line, rotate_log_if_large, switch_of, switches_message,
    Bootstrap, KsMode, LOG_ROTATE_THRESHOLD_BYTES,
};
use anonet::coordinator::{AfterCheck, AfterScan, BridgeCoordinator};
use anonet::discovery::{
    is_executable, locate_transport_binary, missing_transport_message, search_paths, FileMeta,
};
use anonet::killswitch::KillSwitch;
use anonet::monitor::BridgeMonitor;
use anonet::span::Span;
use anonet::telemetry::HealthStatus;

const FAKE_OBFS4_LINE: &str = "Bridge obfs4 192.0.2.55:38114 316E643333645F6D79216558614D3931657A5F5F cert=YXJlIGZyZXF1ZW50bHkgZnVsbCBvZiBsaXR0bGUgbWVzc2FnZXMgeW91IGNhbiBmaW5kLg iat-mode=0";
const OTHER_OBFS4_LINE: &str = "Bridge obfs4 198.51.100.9:443 7DD62766BF2052432051D7B7E08A22F7E34A4543 cert=YnV0IHNvbWV0aW1lcyB0aGV5IGFyZSByYW5kb20u8x9aQG/0cIIcx0ItBcTqiSXotQne+Q iat-mode=0";
const DIRECT_LINE: &str = "Bridge 192.0.2.66:443 8C00000DFE0046ABCDFAD191144399CB520C29E8";

fn add(manager: &mut BridgeManager, line: &str) -> Result<usize, String> {
    manager.add_bridge_line(line, &vec![], |_| false, |_| false)
}

fn ms(millis: u64) -> Span {
    Span::new(millis / 1000, (millis % 1000) as u32 * 1_000_000).unwrap()
}

fn result(line: &str, success: bool, latency_ms: u64) -> HealthResult {
    HealthResult {
        candidate_line: line.to_string(),
        success,
        latency: ms(latency_ms),
        error: if success { None } else { Some("no route".to_string()) },
    }
}

#[test]
fn is_executable_true_only_for_executable_files() {
    let exe = Some(FileMeta { is_file: true, mode: 0o100755 });
    let non_exe = Some(FileMeta { is_file: true, mode: 0o100644 });
    assert!(is_executable(exe));
    assert!(!is_executable(non_exe));
    assert!(!is_executable(None));
    assert!(!is_executable(Some(FileMeta { is_file: false, mode: 0o40755 })));
}

#[test]
fn locate_transport_binary_returns_none_for_unknown_protocol() {
    let never = |_: &str| -> bool { panic!("nothing is probed") };
    assert!(locate_transport_binary("not-a-real-transport", &vec!["/bin".to_string()], never).is_none());
}

#[test]
fn missing_transport_message_names_known_package_and_protocol() {
    let msg = missing_transport_message("obfs4", &vec![], |_| false);
    assert!(msg.contains("obfs4"));
    assert!(msg.contains("obfs4proxy"));
}

#[test]
fn missing_transport_message_falls_back_to_pt_flag_for_unknown_protocol() {
    let msg = missing_transport_message("mystery-transport", &vec![], |_| false);
    assert!(msg.contains("--pt mystery-transport="));
}

#[test]
fn first_binary_in_search_order_is_found() {
    let dirs = vec!["/a".to_string(), "/b/".to_string()];
    let paths = search_paths("obfs4", &dirs);
    assert_eq!(paths.len(), 16);
    assert_eq!(paths[0], "/a/obfs4proxy");
    assert_eq!(paths[1], "/b/obfs4proxy");
    assert_eq!(paths[2], "/usr/bin/obfs4proxy");
    assert_eq!(paths[8], "/a/lyrebird");
    let found = locate_transport_binary("obfs4", &dirs, |p| p.ends_with("lyrebird") || p == "/snap/bin/obfs4proxy");
    assert_eq!(found, Some("/snap/bin/obfs4proxy".to_string()));
    assert_eq!(locate_transport_binary("snowflake", &dirs, |_| false), None);
}

#[test]
fn suggestions_name_the_first_package_manager() {
    let dirs = vec!["/bin".to_string()];
    let msg = missing_transport_message("obfs4", &dirs, |p| p == "/bin/dnf" || p == "/bin/apk");
    assert_eq!(
        msg,
        "no 'obfs4' pluggable-transport binary found; install it with: sudo dnf install -y obfs4proxy"
    );
    let msg = missing_transport_message("snowflake", &dirs, |_| false);
    assert_eq!(
        msg,
        "no 'snowflake' pluggable-transport binary found; install the 'snowflake-client' package for your distro, or pass --pt snowflake=<path>"
    );
}

#[test]
fn parses_a_valid_obfs4_bridge_line() {
    parse_bridge_line(FAKE_OBFS4_LINE).expect("known-good bridge line should parse");
}

#[test]
fn rejects_garbage_bridge_line() {
    assert!(parse_bridge_line("not a bridge line").is_err());
}

#[test]
fn refused_lines_are_quoted() {
    let err = parse_bridge_line("not a bridge line").unwrap_err();
    assert!(err.starts_with("invalid bridge line 'not a bridge line': "));
    assert!(err.len() > "invalid bridge line 'not a bridge line': ".len());
}

#[test]
fn transport_binary_builds_valid_config() {
    let t = TransportBinary::new("obfs4", "/usr/bin/obfs4proxy");
    t.to_builder().expect("well-formed transport should build");
}

#[test]
fn transport_binary_rejects_bad_protocol_name() {
    let t = TransportBinary::new("not a protocol name!!", "/usr/bin/obfs4proxy");
    assert!(t.to_builder().is_err());
}

#[test]
fn transport_names_are_identifiers() {
    let ok = |name: &str| TransportBinary::new(name, "/x").to_builder().is_ok();
    assert!(ok("_pt2"));
    assert!(ok("meek_lite"));
    assert!(!ok(""));
    assert!(!ok("2pt"));
    assert!(!ok("Bridge"));
    assert!(!ok("bridge"));
    assert!(!ok("caf\u{e9}"));
    assert!(ok("bridges"));
    let c = TransportBinary::new("obfs4", "/p").to_builder().unwrap();
    assert_eq!((c.protocol.as_str(), c.path.as_str(), c.run_on_startup), ("obfs4", "/p", true));
    assert_eq!(
        TransportBinary::new("a b", "/p").to_builder().unwrap_err(),
        "invalid pluggable transport protocol name 'a b'"
    );
}

#[test]
fn failover_order_is_preserved() {
    let mut manager = BridgeManager::new(vec![TransportBinary::new("obfs4", "/usr/bin/obfs4proxy")]);
    add(&mut manager, FAKE_OBFS4_LINE).unwrap();
    add(&mut manager, OTHER_OBFS4_LINE).unwrap();
    assert_eq!(manager.candidate_count(), 2);
    manager.production_config(0).unwrap();
    manager.production_config(1).unwrap();
    assert!(manager.production_config(2).is_err());
    assert_eq!(
        manager.all_candidates(),
        vec![(0, FAKE_OBFS4_LINE.to_string()), (1, OTHER_OBFS4_LINE.to_string())]
    );
    assert_eq!(manager.candidate_line(1), Some(OTHER_OBFS4_LINE.to_string()));
    assert_eq!(manager.candidate_line(2), None);
    assert_eq!(manager.candidate(2), Err("no bridge candidate at index 2".to_string()));
}

#[test]
fn configs_hold_one_bridge_and_all_transports() {
    let mut manager = BridgeManager::new(vec![TransportBinary::new("snowflake", "/s")]);
    add(&mut manager, DIRECT_LINE).unwrap();
    let storage = Storage::Directories { state: "/st".to_string(), cache: "/ca".to_string() };
    let c = manager.build_config(0, storage).unwrap();
    assert_eq!(c.bridge_line, DIRECT_LINE);
    assert_eq!(c.transports.len(), 1);
    assert_eq!(c.transports[0].path, "/s");
    assert!(matches!(c.storage, Storage::Directories { .. }));
    let mut bad = BridgeManager::new(vec![TransportBinary::new("a b", "/s")]);
    add(&mut bad, DIRECT_LINE).unwrap();
    assert_eq!(
        bad.production_config(0).unwrap_err(),
        "invalid pluggable transport protocol name 'a b'"
    );
}

#[test]
fn known_transports_are_located_on_the_way() {
    let mut manager = BridgeManager::new(vec![]);
    let refused = add(&mut manager, FAKE_OBFS4_LINE).unwrap_err();
    assert!(refused.starts_with("no 'obfs4' pluggable-transport binary found"));
    assert_eq!(manager.candidate_count(), 0);
    let dirs = vec!["/opt/bin".to_string()];
    let idx = manager.add_bridge_line(FAKE_OBFS4_LINE, &dirs, |p| p == "/opt/bin/lyrebird", |_| false);
    assert_eq!(idx, Ok(0));
    let c = manager.production_config(0).unwrap();
    assert_eq!(c.transports.len(), 1);
    assert_eq!(c.transports[0].protocol, "obfs4");
    assert_eq!(c.transports[0].path, "/opt/bin/lyrebird");
    assert_eq!(add(&mut manager, OTHER_OBFS4_LINE), Ok(1));
    assert!(manager.has_transport("obfs4"));
    assert!(add(&mut manager, "nonsense").is_err());
    assert_eq!(manager.candidate_count(), 2);
}

#[test]
fn health_checks_are_judged() {
    let mut manager = BridgeManager::new(vec![]);
    add(&mut manager, DIRECT_LINE).unwrap();
    let check = |outcome| manager.health_check(0, outcome, Span::from_secs(30));
    let r = check(ProbeOutcome::Connected { elapsed: ms(1234) });
    assert!(r.success);
    assert_eq!((r.latency.millis(), r.error, r.candidate_line.as_str()), (1234, None, DIRECT_LINE));
    let r = check(ProbeOutcome::Failed { elapsed: ms(7), error: "refused".to_string() });
    assert_eq!((r.success, r.latency.millis(), r.error), (false, 7, Some("refused".to_string())));
    let r = check(ProbeOutcome::TimedOut);
    assert_eq!(r.latency.millis(), 30_000);
    assert_eq!(r.error, Some("health check timed out after 30s".to_string()));
    let r = check(ProbeOutcome::NoStateDir { error: "full".to_string() });
    assert_eq!(r.error, Some("failed to create temp state dir: full".to_string()));
    let r = check(ProbeOutcome::NoCacheDir { error: "full".to_string() });
    assert_eq!(r.error, Some("failed to create temp cache dir: full".to_string()));
    let r = check(ProbeOutcome::NoConfig { error: "bad".to_string() });
    assert_eq!((r.latency.millis(), r.error), (0, Some("bad".to_string())));
    let r = manager.health_check(9, ProbeOutcome::TimedOut, Span::from_secs(0));
    assert_eq!(r.candidate_line, "");
    assert_eq!(r.error, Some(timeout_message("0ns")));
    let r = manager.health_check(0, ProbeOutcome::TimedOut, ms(1500));
    assert_eq!(r.latency.millis(), 1500);
    assert_eq!(r.error, Some("health check timed out after 1.5s".to_string()));
}

#[test]
fn spans_are_normal() {
    assert!(Span::new(1, 1_000_000_000).is_none());
    let s = Span::new(u64::MAX, 999_999_999).unwrap();
    assert_eq!(s.millis(), u64::MAX as u128 * 1000 + 999);
    assert_eq!(Span::new(0, 2_500_000).unwrap().to_text(), "2.5ms");
    assert_eq!(Span::from_secs(61).to_text(), "61s");
}

#[test]
fn health_checks_have_their_target() {
    let t = probe_target();
    assert_eq!(
        (t.host.as_str(), t.port, t.identity.as_str()),
        ("check.torproject.org", 443, "bridge-health-check")
    );
}

#[test]
fn search_takes_the_first_healthy_bridge() {
    let mut s = HealthSearch::start(3).unwrap();
    assert_eq!(s.current(), 0);
    assert_eq!(s.advance(false), SearchStep::Check(1));
    assert_eq!(s.current(), 1);
    assert_eq!(s.advance(true), SearchStep::Found(1));
    let mut s = HealthSearch::start(2).unwrap();
    assert_eq!(s.advance(false), SearchStep::Check(1));
    assert_eq!(s.advance(false), SearchStep::Exhausted);
    assert_eq!(s.exhausted_message(), "all 2 configured bridges failed their health check");
    assert_eq!(HealthSearch::start(0).unwrap_err(), "no bridge candidates configured");
}

#[test]
fn coordinator_fails_over_at_the_threshold() {
    let mut status = HealthStatus::default();
    let mut c = BridgeCoordinator::new(&mut status, Some(0), Some("one".to_string()), 2);
    assert_eq!(c.on_wake(), Some(0));
    assert_eq!(status.active_bridge_line, Some("one".to_string()));
    assert_eq!(c.on_check(&mut status, 0, &result("one", false, 5), 100), AfterCheck::Wait);
    assert_eq!(status.consecutive_failures, 1);
    assert_eq!(c.on_check(&mut status, 0, &result("one", true, 9), 200), AfterCheck::Wait);
    assert_eq!(status.consecutive_failures, 0);
    assert_eq!(c.on_check(&mut status, 0, &result("one", false, 5), 300), AfterCheck::Wait);
    assert_eq!(c.on_check(&mut status, 0, &result("one", false, 6), 400), AfterCheck::Rescan);
    assert_eq!(status.history.len(), 4);
    assert_eq!(status.last_check_at, Some(400));
    assert_eq!(status.candidates.len(), 1);
    assert_eq!(status.candidates[0].last_latency_ms, Some(6));
    c.on_scan_result(&mut status, 1, &result("two", true, 8));
    assert_eq!(status.candidates.len(), 2);
    assert_eq!(c.on_scan_end(&mut status, 0, None), AfterScan::NoneHealthy);
    assert_eq!(c.on_scan_end(&mut status, 0, Some(1)), AfterScan::Bootstrap(1));
    c.on_failover(&mut status, 1, Some("two".to_string()), false, 500);
    assert_eq!(c.active, Some(0));
    assert_eq!(status.total_switches, 0);
    c.on_failover(&mut status, 1, Some("two".to_string()), true, 600);
    assert_eq!(c.active, Some(1));
    assert_eq!(c.failures, 0);
    assert_eq!(status.total_switches, 1);
    assert_eq!(status.active_bridge_index, Some(1));
    assert_eq!(status.last_switch_at, Some(600));
    assert_eq!(status.consecutive_failures, 0);
}

#[test]
fn coordinator_keeps_a_bridge_that_recovered() {
    let mut status = HealthStatus::default();
    let mut c = BridgeCoordinator::new(&mut status, Some(3), None, 0);
    assert_eq!(c.on_check(&mut status, 3, &result("x", false, 1), 1), AfterCheck::Rescan);
    assert_eq!(c.on_scan_end(&mut status, 3, Some(3)), AfterScan::Keep);
    assert_eq!((c.failures, status.consecutive_failures), (0, 0));
    let mut none = HealthStatus::default();
    let idle = BridgeCoordinator::new(&mut none, None, None, 3);
    assert_eq!(idle.on_wake(), None);
    assert_eq!(none.active_bridge_index, None);
}

#[test]
fn new_bridges_are_tried_live() {
    let mut status = HealthStatus::default();
    let mut c = BridgeCoordinator::new(&mut status, None, None, 3);
    c.failures = 2;
    status.consecutive_failures = 2;
    c.on_add_refused(&mut status, "invalid", 1);
    assert_eq!(status.last_error.as_ref().unwrap().message, "invalid");
    c.on_add_requested(&mut status);
    assert!(status.last_error.is_none());
    let err = c.on_added_check(&mut status, 0, &result("new", false, 3), 2).unwrap_err();
    assert_eq!(err, "new bridge failed its health check: no route");
    assert_eq!(status.last_error.as_ref().unwrap().message, err);
    let mut silent = result("new", false, 3);
    silent.error = None;
    assert_eq!(
        c.on_added_check(&mut status, 0, &silent, 2).unwrap_err(),
        "new bridge failed its health check: unknown error"
    );
    c.on_add_requested(&mut status);
    assert!(c.on_added_check(&mut status, 0, &result("new", true, 4), 3).is_ok());
    assert!(status.last_error.is_none());
    c.on_add_failed(&mut status, "no client", 3);
    assert_eq!(status.last_error.as_ref().unwrap().message, "no client");
    assert_eq!(c.failures, 2);
    c.on_added(&mut status, 0, Some("new".to_string()), 4);
    assert_eq!(c.active, Some(0));
    assert_eq!(c.failures, 0);
    assert_eq!(c.on_check(&mut status, 0, &result("new", false, 1), 5), AfterCheck::Wait);
    assert_eq!(status.consecutive_failures, 1);
    c.on_added(&mut status, 0, Some("new".to_string()), 6);
    assert_eq!(status.consecutive_failures, 0);
    assert_eq!(status.total_switches, 2);
}

#[test]
fn searches_reset_the_count() {
    let mut status = HealthStatus::default();
    let mut c = BridgeCoordinator::new(&mut status, Some(0), None, 2);
    let fail = result("x", false, 1);
    assert_eq!(c.on_check(&mut status, 0, &fail, 1), AfterCheck::Wait);
    assert_eq!(c.on_check(&mut status, 0, &fail, 2), AfterCheck::Rescan);
    assert_eq!(c.on_scan_end(&mut status, 0, None), AfterScan::NoneHealthy);
    assert_eq!(c.on_check(&mut status, 0, &fail, 3), AfterCheck::Rescan);
    assert_eq!(c.on_scan_end(&mut status, 0, Some(0)), AfterScan::Keep);
    assert_eq!(c.on_check(&mut status, 0, &fail, 4), AfterCheck::Wait);
    assert_eq!(c.on_check(&mut status, 0, &fail, 5), AfterCheck::Rescan);
    assert_eq!(c.on_scan_end(&mut status, 0, Some(1)), AfterScan::Bootstrap(1));
    c.on_failover(&mut status, 1, None, true, 6);
    assert_eq!(c.on_check(&mut status, 1, &fail, 7), AfterCheck::Wait);
}

#[test]
fn monitor_fails_over_at_the_threshold() {
    let mut status = HealthStatus::default();
    let mut m = BridgeMonitor::new(&mut status, 0, Some("one".to_string()), 1);
    assert_eq!(m.on_check(&mut status, &result("one", true, 5), 1), AfterCheck::Wait);
    assert_eq!(m.on_check(&mut status, &result("one", false, 5), 2), AfterCheck::Rescan);
    assert_eq!(m.on_scan_end(&mut status, Some(0)), AfterScan::Keep);
    assert_eq!(status.consecutive_failures, 0);
    assert_eq!(m.on_check(&mut status, &result("one", false, 5), 3), AfterCheck::Rescan);
    assert_eq!(m.on_scan_end(&mut status, Some(2)), AfterScan::Bootstrap(2));
    m.on_failover(&mut status, 2, Some("three".to_string()), true, 4);
    assert_eq!((m.active, m.failures, status.total_switches), (2, 0, 1));
    assert_eq!(status.active_bridge_line, Some("three".to_string()));
    assert_eq!(m.on_check(&mut status, &result("three", false, 5), 5), AfterCheck::Rescan);
    assert_eq!(m.on_scan_end(&mut status, None), AfterScan::NoneHealthy);
    m.on_failover(&mut status, 0, None, false, 6);
    assert_eq!((m.active, m.failures), (2, 1));
}

#[test]
fn pt_options_are_read() {
    let t = parse_pt_spec("obfs4=/usr/bin/obfs4proxy").unwrap();
    assert_eq!((t.protocol.as_str(), t.path.as_str()), ("obfs4", "/usr/bin/obfs4proxy"));
    assert_eq!(parse_pt_spec("a=b=c").unwrap().path, "b=c");
    assert_eq!(
        parse_pt_spec("obfs4").unwrap_err(),
        "--pt must be formatted as protocol=/path/to/binary, got 'obfs4'"
    );
    assert_eq!(
        parse_pt_spec("=x").unwrap_err(),
        "--pt protocol and path must both be non-empty (got '=x')"
    );
    assert_eq!(
        parse_pt_spec("x=").unwrap_err(),
        "--pt protocol and path must both be non-empty (got 'x=')"
    );
    let specs = vec!["a=1".to_string(), "b=2".to_string()];
    assert_eq!(parse_pt_specs(&specs).unwrap().len(), 2);
    let specs = vec!["a=1".to_string(), "b".to_string(), "=".to_string()];
    assert_eq!(
        parse_pt_specs(&specs).unwrap_err(),
        "--pt must be formatted as protocol=/path/to/binary, got 'b'"
    );
}

#[test]
fn killswitch_commands_are_planned() {
    let p = plan_enable(KsMode::Scoped, Some(5), Err("unread".to_string()), None).unwrap();
    assert_eq!(p.switch, KillSwitch::Scoped { protect_uid: 5 });
    assert_eq!(p.ttl_secs, None);
    assert_eq!(
        plan_enable(KsMode::Scoped, None, Ok(1), Some(1)).unwrap_err(),
        "--mode scoped requires --protect-uid <uid>"
    );
    let p = plan_enable(KsMode::Radical, None, Ok(9), None).unwrap();
    assert_eq!(p.switch, KillSwitch::Radical { anonet_uid: 9 });
    assert_eq!(p.ttl_secs, Some(300));
    let p = plan_enable(KsMode::Radical, None, Ok(9), Some(10)).unwrap();
    assert_eq!(p.ttl_secs, Some(10));
    assert_eq!(plan_enable(KsMode::Radical, None, Err("no id".to_string()), None).unwrap_err(), "no id");
    assert_eq!(switch_of(KsMode::Scoped).table(), p_table(KsMode::Scoped));
    assert_eq!(mode_label(KsMode::Radical), "radical");
    assert_eq!(
        enabled_message(KsMode::Scoped, None),
        "Kill switch enabled with no TTL. Run `anonet killswitch disable --mode scoped` to remove it."
    );
    assert_eq!(
        enabled_message(KsMode::Radical, Some(300)),
        "Kill switch enabled for up to 300s (Ctrl+C disables it immediately)."
    );
    assert_eq!(disabled_message(KsMode::Radical), "Kill switch (radical) disabled.");
    assert_eq!(switches_message(true, false), "scoped:  ENABLED\nradical: disabled");
}

fn p_table(mode: KsMode) -> &'static str {
    match mode {
        KsMode::Scoped => "anonet_ks_scoped",
        KsMode::Radical => "anonet_ks_system",
    }
}

#[test]
fn startup_falls_back_to_a_direct_connection() {
    assert_eq!(choose_bootstrap(0, None), Bootstrap::Direct);
    assert_eq!(choose_bootstrap(2, Some(1)), Bootstrap::Through(1));
    assert_eq!(choose_bootstrap(2, None), Bootstrap::Fallback);
    assert_eq!(progress_line(Bootstrap::Direct, None), "bootstrapping Tor...");
    assert_eq!(
        progress_line(Bootstrap::Through(1), Some(15)),
        "bootstrapping Tor via bridge... still working (15s elapsed)"
    );
    assert_eq!(progress_line(Bootstrap::Fallback, None), "bootstrapping Tor (direct fallback)...");
}

#[test]
fn rotate_log_if_large_renames_when_over_threshold() {
    let to = rotate_log_if_large("/tmp/x.d/anonet.log", Some(100), 50);
    assert_eq!(to, Some("/tmp/x.d/anonet.log.1".to_string()));
}

#[test]
fn rotate_log_if_large_leaves_small_logs_alone() {
    assert_eq!(rotate_log_if_large("/tmp/anonet.log", Some(10), 50), None);
    assert_eq!(rotate_log_if_large("/tmp/anonet.log", Some(50), 50), None);
    assert_eq!(LOG_ROTATE_THRESHOLD_BYTES, 10 * 1024 * 1024);
}

#[test]
fn rotate_log_if_large_is_a_noop_when_file_does_not_exist() {
    assert_eq!(rotate_log_if_large("/tmp/anonet.log", None, 50), None);
}
