//! Isolation, the control port, the supervised tor, full anonymization and the
//! instance lock.
use anonet::control::{
    authenticate_command, expect_ok, on_line, parse_stream_event, Phase, SessionStep,
};
use anonet::full_anon::{
    advance, advance_disable, begin_disable, begin_enable, DisableStep, EnableStep,
    FullAnonController,
};
use anonet::instance_lock::{
    group_argument, previous_pid, process_path, Move, Stage, Takeover, KILL_POLLS, TERM_POLLS,
};
use anonet::isolation::{sort_rows, IsolationRow, IsolationTable};
use anonet::killswitch::KillSwitch;
use anonet::paths::{anonet_log_path, pid_path, socket_path};
use anonet::supervisor::{classify_line, StartEnd, TorLine, TorPorts, TorSupervisor, START_TIMEOUT_SECS};
use anonet::telemetry::HealthStatus;

#[test]
fn parses_a_stream_succeeded_event() {
    let line = "650 STREAM 7 SUCCEEDED 4 example.com:443";
    let event = parse_stream_event(line, 11).unwrap();
    assert_eq!(event.status, "SUCCEEDED");
    assert_eq!(event.target, "example.com:443");
    assert_eq!(event.at, 11);
}

#[test]
fn ignores_non_stream_lines() {
    assert!(parse_stream_event("650 CIRC 4 BUILT", 0).is_none());
    assert!(parse_stream_event("250 OK", 0).is_none());
    assert!(parse_stream_event("650 STREAM 7 SUCCEEDED 4", 0).is_none());
    let more = parse_stream_event("650 STREAM  1  NEW 0  a:1 SOURCE_ADDR=x", 0).unwrap();
    assert_eq!(more.target, "a:1");
}

#[test]
fn cookie_is_sent_in_hexadecimal() {
    assert_eq!(authenticate_command(&[0x00, 0xAB, 0x7f]), "AUTHENTICATE 00AB7F\r\n");
    assert_eq!(authenticate_command(&[]), "AUTHENTICATE \r\n");
}

#[test]
fn control_session_runs_through() {
    let mut phase = Phase::Authenticating;
    match on_line(&mut phase, Some("250 OK"), 1) {
        SessionStep::Send(s) => assert_eq!(s, "SETEVENTS STREAM\r\n"),
        _ => panic!("subscribes"),
    }
    assert!(matches!(on_line(&mut phase, Some("250 OK"), 1), SessionStep::Continue));
    assert_eq!(phase, Phase::Watching);
    match on_line(&mut phase, Some("650 STREAM 1 NEW 0 a:1"), 5) {
        SessionStep::Report(e) => assert_eq!((e.at, e.status.as_str()), (5, "NEW")),
        _ => panic!("reports"),
    }
    assert!(matches!(on_line(&mut phase, Some("650 CIRC 1"), 5), SessionStep::Continue));
    match on_line(&mut phase, None, 5) {
        SessionStep::Fail { context, cause } => {
            assert_eq!((context.as_str(), cause.as_str()), ("", "ControlPort connection closed"));
        }
        _ => panic!("ends"),
    }
}

#[test]
fn control_session_fails_with_the_reply() {
    let mut phase = Phase::Authenticating;
    match on_line(&mut phase, Some("515 Bad"), 1) {
        SessionStep::Fail { context, cause } => {
            assert_eq!(context, "ControlPort AUTHENTICATE failed");
            assert_eq!(cause, "unexpected ControlPort reply: 515 Bad");
        }
        _ => panic!("fails"),
    }
    let mut phase = Phase::Subscribing;
    match on_line(&mut phase, None, 1) {
        SessionStep::Fail { context, cause } => {
            assert_eq!(context, "ControlPort SETEVENTS failed");
            assert_eq!(cause, "ControlPort closed before replying");
        }
        _ => panic!("fails"),
    }
    assert_eq!(expect_ok(Some("250")), Ok(()));
    assert!(expect_ok(Some("25")).is_err());
}

#[test]
fn identities_have_their_own_circuits() {
    let mut t = IsolationTable::new();
    let alice = t.acquire(b"alice".to_vec(), 0).unwrap();
    let bob = t.acquire(b"bob".to_vec(), 0).unwrap();
    assert_ne!(alice, bob);
    assert_eq!(t.acquire(b"alice".to_vec(), 1000).unwrap(), alice);
    let rows = t.snapshot(61_999);
    assert_eq!(rows.len(), 2);
    assert_eq!((rows[0].identity.as_str(), rows[0].uses, rows[0].age_secs), ("alice", 2, 61));
    assert_eq!(rows[1].identity, "bob");
}

#[test]
fn circuits_rotate_after_many_uses() {
    let mut t = IsolationTable::new();
    let first = t.acquire(b"a".to_vec(), 0).unwrap();
    for _ in 1..200 {
        assert_eq!(t.acquire(b"a".to_vec(), 0).unwrap(), first);
    }
    assert_ne!(t.acquire(b"a".to_vec(), 0).unwrap(), first);
    assert_eq!(t.snapshot(0)[0].uses, 1);
}

#[test]
fn circuits_rotate_after_ten_minutes() {
    let mut t = IsolationTable::new();
    let first = t.acquire(b"a".to_vec(), 5_000).unwrap();
    assert_eq!(t.acquire(b"a".to_vec(), 604_999).unwrap(), first);
    assert_ne!(t.acquire(b"a".to_vec(), 605_000).unwrap(), first);
    assert_eq!(t.acquire(b"a".to_vec(), 1).unwrap(), t.acquire(b"a".to_vec(), 1).unwrap());
}

#[test]
fn snapshot_is_sorted() {
    let mut t = IsolationTable::new();
    for id in ["b", "", "ab", "a", "\u{e9}"] {
        t.acquire(id.as_bytes().to_vec(), 0);
    }
    t.acquire(vec![0xFF], 0).unwrap();
    let names: Vec<String> = t.snapshot(0).into_iter().map(|r| r.identity).collect();
    assert_eq!(names, vec!["", "a", "ab", "b", "\u{e9}", "\u{FFFD}"]);
}

#[test]
fn rows_of_one_identity_keep_their_order() {
    let row = |identity: &str, uses| IsolationRow { identity: identity.to_string(), uses, age_secs: 0 };
    let out = sort_rows(vec![row("b", 1), row("a", 2), row("b", 3), row("a", 4)]);
    let uses: Vec<u32> = out.iter().map(|r| r.uses).collect();
    assert_eq!(uses, vec![2, 4, 1, 3]);
}

#[test]
fn supervisor_starts_and_stops() {
    let mut s = TorSupervisor::new(TorPorts::default(), &Some("/home/u/.local/share".to_string()));
    assert_eq!(s.cookie_path(), "/home/u/.local/share/anonet/tor-transparent/control_auth_cookie");
    assert_eq!(s.ports(), TorPorts { trans_port: 9040, dns_port: 5300, control_port: 9051 });
    let plan = s.begin_start().unwrap();
    assert_eq!(plan.torrc_path, "/home/u/.local/share/anonet/tor-transparent/torrc");
    assert_eq!(plan.data_dir, "/home/u/.local/share/anonet/tor-transparent");
    assert_eq!(
        plan.torrc,
        "SocksPort 0\nTransPort 127.0.0.1:9040\nDNSPort 127.0.0.1:5300\nControlPort 127.0.0.1:9051\nCookieAuthentication 1\nDataDirectory /home/u/.local/share/anonet/tor-transparent\nLog notice stdout\nRunAsDaemon 0\n"
    );
    assert!(!s.stop());
    assert_eq!(START_TIMEOUT_SECS, 120);
    assert_eq!(
        s.finish_start(StartEnd::TimedOut),
        Err("tor did not finish bootstrapping within 120s".to_string())
    );
    assert_eq!(
        s.finish_start(StartEnd::Exited),
        Err("tor exited before finishing bootstrap".to_string())
    );
    assert_eq!(
        s.finish_start(StartEnd::Unreadable { error: "reading tor stdout".to_string() }),
        Err("reading tor stdout".to_string())
    );
    assert!(!s.is_running());
    assert!(s.finish_start(StartEnd::Bootstrapped).is_ok());
    assert!(s.is_running());
    assert_eq!(s.begin_start().unwrap_err(), "tor is already running");
    assert!(s.stop());
    assert!(!s.is_running());
}

#[test]
fn tor_output_is_understood() {
    assert_eq!(
        classify_line("Jan 1 [notice] Bootstrapped 100% (done): Done"),
        TorLine::Bootstrapped
    );
    assert_eq!(classify_line("[err] no"), TorLine::Warning);
    assert_eq!(classify_line("[warn] Problem: Bootstrapped 10%"), TorLine::Warning);
    assert_eq!(classify_line("[warn] something"), TorLine::Quiet);
    assert_eq!(classify_line("[notice] Bootstrapped 10%"), TorLine::Quiet);
}

#[test]
fn full_anonymization_is_enabled_step_by_step() {
    let c = FullAnonController::new();
    let mut h = HealthStatus::default();
    let mut step = begin_enable(Ok(7));
    for _ in 0..3 {
        c.on_step(&mut h, &step, 1);
        assert!(!h.transparent_enabled);
        step = advance(step, Ok(()));
    }
    assert!(matches!(step, EnableStep::Done));
    c.on_step(&mut h, &step, 1);
    assert!(h.transparent_enabled);
    c.on_disabled(&mut h);
    assert!(!h.transparent_enabled);
    let r = c.redirect(7);
    assert_eq!((r.anonet_uid, r.trans_port, r.dns_port), (7, 9040, 5300));
    assert_eq!(c.fail_safe(7), KillSwitch::Radical { anonet_uid: 7 });
    assert_eq!(c.disable_uid(Ok(3)), 3);
    assert_eq!(c.disable_uid(Err("x".to_string())), 0);
}

#[test]
fn disabling_tries_everything() {
    let mut steps = vec![begin_disable()];
    while steps[steps.len() - 1] != DisableStep::Done {
        steps.push(advance_disable(steps[steps.len() - 1]));
    }
    assert_eq!(
        steps,
        vec![
            DisableStep::LiftRedirect,
            DisableStep::LiftRadical,
            DisableStep::StopTor,
            DisableStep::Done
        ]
    );
}

#[test]
fn failed_enabling_is_undone() {
    let c = FullAnonController::new();
    let step = advance(begin_enable(Ok(7)), Ok(()));
    let step = advance(step, Ok(()));
    let step = advance(step, Err("nft".to_string()));
    assert!(matches!(step, EnableStep::UndoRedirect { uid: 7, .. }));
    let step = advance(step, Ok(()));
    assert!(matches!(step, EnableStep::UndoTor { .. }));
    let step = advance(step, Ok(()));
    let mut h = HealthStatus::default();
    c.on_step(&mut h, &step, 9);
    assert_eq!(h.last_error.as_ref().unwrap().message, "nft");
    assert!(!h.transparent_enabled);
    c.on_enable_requested(&mut h);
    assert!(h.last_error.is_none());
    let step = advance(advance(begin_enable(Ok(7)), Ok(())), Err("r".to_string()));
    assert!(matches!(step, EnableStep::UndoTor { .. }));
    assert!(matches!(advance(begin_enable(Ok(7)), Err("t".to_string())), EnableStep::Failed { .. }));
    assert!(matches!(begin_enable(Err("id".to_string())), EnableStep::Failed { .. }));
}

#[test]
fn lock_file_names_the_previous_process() {
    assert_eq!(previous_pid(&Some(" 42\n".to_string())), Some(42));
    assert_eq!(previous_pid(&Some("x".to_string())), None);
    assert_eq!(previous_pid(&None), None);
    assert_eq!(process_path(42), "/proc/42");
    assert_eq!(group_argument(42), "-42");
}

#[test]
fn takeover_ends_at_once_if_nothing_runs() {
    let mut t = Takeover::new(42);
    assert_eq!(t.on_look(false), Move::Proceed);
    assert_eq!(t.message(Move::Proceed), None);
}

#[test]
fn takeover_waits_for_sigterm() {
    let mut t = Takeover::new(42);
    assert_eq!(t.on_look(true), Move::SendTerm);
    assert_eq!(
        t.message(Move::SendTerm),
        Some("a previous anonet instance is still running (PID 42); stopping it...".to_string())
    );
    assert_eq!(t.on_look(true), Move::Wait);
    assert_eq!(t.on_look(false), Move::Look);
    assert_eq!(t.stage, Stage::TermVerdict);
    assert_eq!(t.on_look(false), Move::Stopped);
    assert_eq!(t.message(Move::Stopped), Some("previous instance stopped, continuing".to_string()));
}

#[test]
fn takeover_escalates_and_gives_up() {
    let mut t = Takeover::new(42);
    assert_eq!(t.on_look(true), Move::SendTerm);
    for _ in 0..TERM_POLLS {
        assert_eq!(t.on_look(true), Move::Wait);
    }
    assert_eq!(t.on_look(true), Move::SendKill);
    assert_eq!(
        t.message(Move::SendKill),
        Some("PID 42 ignored SIGTERM; sending SIGKILL...".to_string())
    );
    for _ in 0..KILL_POLLS {
        assert_eq!(t.on_look(true), Move::Wait);
    }
    assert_eq!(t.on_look(true), Move::GiveUp);
    assert_eq!(
        t.message(Move::GiveUp),
        Some("PID 42 would not die even after SIGKILL; stop it manually and retry.".to_string())
    );
}

#[test]
fn files_are_under_the_data_directory() {
    let dir = Some("/d".to_string());
    assert_eq!(anonet_log_path(&dir), "/d/anonet/anonet.log");
    assert_eq!(socket_path(&dir), "/d/anonet/anonet.sock");
    assert_eq!(pid_path(&None), "./anonet/anonet.pid");
}
