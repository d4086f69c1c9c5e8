//! Other programs, as they are told and as they answer: `tor`, `nft`, `id`,
//! `kill`, and a previous instance.
use crate::control::{self, Phase, SessionStep};
use crate::full_anon::{self, EnableStep};
use crate::instance_lock::{self, Move, Stage};
use crate::killswitch;
use crate::laws::texts;
use crate::nft::{self, ScriptRun};
use crate::paths;
use crate::supervisor::{self, StartEnd, Supervision, TorLine};
use crate::telemetry::HealthStatus;
use crate::text;
use vstd::prelude::*;
use vstd::string::*;

verus! {

// ---------------------------------------------------------------------------
// `tor`.
// ---------------------------------------------------------------------------
proof fn torrc_words()
    ensures
        "SocksPort 0\nTransPort 127.0.0.1:"@ == "SocksPort 0"@ + seq!['\n']
            + "TransPort 127.0.0.1:"@,
        "\nDNSPort 127.0.0.1:"@ == seq!['\n'] + "DNSPort 127.0.0.1:"@,
        "\nControlPort 127.0.0.1:"@ == seq!['\n'] + "ControlPort 127.0.0.1:"@,
        "\nCookieAuthentication 1\nDataDirectory "@ == seq!['\n'] + "CookieAuthentication 1"@
            + seq!['\n'] + "DataDirectory "@,
        "\nLog notice stdout\nRunAsDaemon 0\n"@ == seq!['\n'] + "Log notice stdout"@ + seq!['\n']
            + "RunAsDaemon 0"@ + seq!['\n'],
        texts::is_line("SocksPort 0"@),
        texts::is_line("TransPort 127.0.0.1:"@),
        texts::is_line("DNSPort 127.0.0.1:"@),
        texts::is_line("ControlPort 127.0.0.1:"@),
        texts::is_line("CookieAuthentication 1"@),
        texts::is_line("DataDirectory "@),
        texts::is_line("Log notice stdout"@),
        texts::is_line("RunAsDaemon 0"@),
{
    reveal_strlit("SocksPort 0\nTransPort 127.0.0.1:");
    reveal_strlit("\nDNSPort 127.0.0.1:");
    reveal_strlit("\nControlPort 127.0.0.1:");
    reveal_strlit("\nCookieAuthentication 1\nDataDirectory ");
    reveal_strlit("\nLog notice stdout\nRunAsDaemon 0\n");
    reveal_strlit("SocksPort 0");
    reveal_strlit("TransPort 127.0.0.1:");
    reveal_strlit("DNSPort 127.0.0.1:");
    reveal_strlit("ControlPort 127.0.0.1:");
    reveal_strlit("CookieAuthentication 1");
    reveal_strlit("DataDirectory ");
    reveal_strlit("Log notice stdout");
    reveal_strlit("RunAsDaemon 0");
    assert("SocksPort 0\nTransPort 127.0.0.1:"@ =~= "SocksPort 0"@ + seq!['\n']
        + "TransPort 127.0.0.1:"@);
    assert("\nDNSPort 127.0.0.1:"@ =~= seq!['\n'] + "DNSPort 127.0.0.1:"@);
    assert("\nControlPort 127.0.0.1:"@ =~= seq!['\n'] + "ControlPort 127.0.0.1:"@);
    assert("\nCookieAuthentication 1\nDataDirectory "@ =~= seq!['\n'] + "CookieAuthentication 1"@
        + seq!['\n'] + "DataDirectory "@);
    assert("\nLog notice stdout\nRunAsDaemon 0\n"@ =~= seq!['\n'] + "Log notice stdout"@ + seq![
        '\n',
    ] + "RunAsDaemon 0"@ + seq!['\n']);
}

/// A port stands behind its address.
proof fn port_line(label: Seq<char>, port: u16)
    requires
        texts::is_line(label),
    ensures
        texts::is_line(label + text::decimal_text(port as nat)),
        texts::begins_with(label + text::decimal_text(port as nat), label),
        texts::writes(
            (label + text::decimal_text(port as nat)).skip(label.len() as int),
            port as int,
        ),
{
    let d = text::decimal_text(port as nat);
    texts::decimals_read_back(port as nat);
    texts::writing_is_line(d, port as int);
    texts::lines_join(label, d);
    texts::behind_is_found(label, d);
}

/// `tor`'s files are in its data directory.
pub proof fn tor_files_are_in_their_place(dir: Seq<char>)
    requires
        dir.len() > 0,
        dir.last() != '/',
    ensures
        supervisor::torrc_file(dir) == dir + "/torrc"@,
        supervisor::cookie_file(dir) == dir + "/control_auth_cookie"@,
{
    reveal_strlit("torrc");
    reveal_strlit("/torrc");
    reveal_strlit("control_auth_cookie");
    reveal_strlit("/control_auth_cookie");
    one_slash(dir, "torrc"@);
    one_slash(dir, "control_auth_cookie"@);
    assert("/torrc"@ =~= seq!['/'] + "torrc"@);
    assert("/control_auth_cookie"@ =~= seq!['/'] + "control_auth_cookie"@);
    assert(dir + seq!['/'] + "torrc"@ =~= dir + (seq!['/'] + "torrc"@));
    assert(dir + seq!['/'] + "control_auth_cookie"@ =~= dir + (seq!['/']
        + "control_auth_cookie"@));
}

/// `tor` reads its configuration line by line: no SOCKS port, the three ports on
/// localhost, a cookie for the control port, the data directory, its log on
/// standard output, and no daemon.
pub proof fn torrc_reads_back(s: Supervision)
    requires
        texts::is_line(s.data_dir),
    ensures
        ({
            let lines = text::lines_of(supervisor::torrc_text(s));
            &&& lines.len() == 8
            &&& lines[0] == "SocksPort 0"@
            &&& texts::begins_with(lines[1], "TransPort 127.0.0.1:"@)
            &&& texts::writes(
                lines[1].skip("TransPort 127.0.0.1:"@.len() as int),
                s.ports.trans_port as int,
            )
            &&& texts::begins_with(lines[2], "DNSPort 127.0.0.1:"@)
            &&& texts::writes(
                lines[2].skip("DNSPort 127.0.0.1:"@.len() as int),
                s.ports.dns_port as int,
            )
            &&& texts::begins_with(lines[3], "ControlPort 127.0.0.1:"@)
            &&& texts::writes(
                lines[3].skip("ControlPort 127.0.0.1:"@.len() as int),
                s.ports.control_port as int,
            )
            &&& lines[4] == "CookieAuthentication 1"@
            &&& texts::begins_with(lines[5], "DataDirectory "@)
            &&& lines[5].skip("DataDirectory "@.len() as int) == s.data_dir
            &&& lines[6] == "Log notice stdout"@
            &&& lines[7] == "RunAsDaemon 0"@
        }),
{
    torrc_words();
    let nl = seq!['\n'];
    let l0 = "SocksPort 0"@;
    let l1 = "TransPort 127.0.0.1:"@ + text::decimal_text(s.ports.trans_port as nat);
    let l2 = "DNSPort 127.0.0.1:"@ + text::decimal_text(s.ports.dns_port as nat);
    let l3 = "ControlPort 127.0.0.1:"@ + text::decimal_text(s.ports.control_port as nat);
    let l4 = "CookieAuthentication 1"@;
    let l5 = "DataDirectory "@ + s.data_dir;
    let l6 = "Log notice stdout"@;
    let l7 = "RunAsDaemon 0"@;
    port_line("TransPort 127.0.0.1:"@, s.ports.trans_port);
    port_line("DNSPort 127.0.0.1:"@, s.ports.dns_port);
    port_line("ControlPort 127.0.0.1:"@, s.ports.control_port);
    texts::lines_join("DataDirectory "@, s.data_dir);
    texts::behind_is_found("DataDirectory "@, s.data_dir);
    texts::one_line(l0);
    let p0 = l0;
    texts::next_line(p0, seq![l0], seq![], l1);
    let p1 = p0 + (nl + seq![]) + l1;
    texts::next_line(p1, seq![l0].push(seq![] + l1), seq![], l2);
    let p2 = p1 + (nl + seq![]) + l2;
    texts::next_line(p2, seq![l0].push(seq![] + l1).push(seq![] + l2), seq![], l3);
    let p3 = p2 + (nl + seq![]) + l3;
    let a3 = seq![l0].push(seq![] + l1).push(seq![] + l2).push(seq![] + l3);
    texts::next_line(p3, a3, seq![], l4);
    let p4 = p3 + (nl + seq![]) + l4;
    let a4 = a3.push(seq![] + l4);
    texts::next_line(p4, a4, seq![], l5);
    let p5 = p4 + (nl + seq![]) + l5;
    let a5 = a4.push(seq![] + l5);
    texts::next_line(p5, a5, seq![], l6);
    let p6 = p5 + (nl + seq![]) + l6;
    let a6 = a5.push(seq![] + l6);
    texts::next_line(p6, a6, seq![], l7);
    let p7 = p6 + (nl + seq![]) + l7;
    let a7 = a6.push(seq![] + l7);
    let all = seq![l0, l1, l2, l3, l4, l5, l6, l7];
    assert(seq![] + l1 =~= l1);
    assert(seq![] + l2 =~= l2);
    assert(seq![] + l3 =~= l3);
    assert(seq![] + l4 =~= l4);
    assert(seq![] + l5 =~= l5);
    assert(seq![] + l6 =~= l6);
    assert(seq![] + l7 =~= l7);
    assert(nl + seq![] =~= nl);
    assert(a7 =~= all);
    assert(texts::all_lines(all));
    texts::lines_read_back(all);
    torrc_is_joined(s);
    assert(supervisor::torrc_text(s) == p7 + nl);
}

proof fn torrc_is_joined(s: Supervision)
    ensures
        ({
            let nl = seq!['\n'];
            supervisor::torrc_text(s) == "SocksPort 0"@ + nl + ("TransPort 127.0.0.1:"@
                + text::decimal_text(s.ports.trans_port as nat)) + nl + ("DNSPort 127.0.0.1:"@
                + text::decimal_text(s.ports.dns_port as nat)) + nl + ("ControlPort 127.0.0.1:"@
                + text::decimal_text(s.ports.control_port as nat)) + nl
                + "CookieAuthentication 1"@ + nl + ("DataDirectory "@ + s.data_dir) + nl
                + "Log notice stdout"@ + nl + "RunAsDaemon 0"@ + nl
        }),
{
    torrc_words();
    let nl = seq!['\n'];
    let a = "SocksPort 0"@;
    let t = "TransPort 127.0.0.1:"@;
    let d = "DNSPort 127.0.0.1:"@;
    let c = "ControlPort 127.0.0.1:"@;
    let k = "CookieAuthentication 1"@;
    let f = "DataDirectory "@;
    let g = "Log notice stdout"@;
    let r = "RunAsDaemon 0"@;
    let tn = text::decimal_text(s.ports.trans_port as nat);
    let dn = text::decimal_text(s.ports.dns_port as nat);
    let cn = text::decimal_text(s.ports.control_port as nat);
    let q1 = a + nl + t + tn;
    let q2 = q1 + (nl + d) + dn;
    let q3 = q2 + (nl + c) + cn;
    let q4 = q3 + (nl + k + nl + f) + s.data_dir;
    let q5 = q4 + (nl + g + nl + r + nl);
    assert(q5 == supervisor::torrc_text(s));
    let x1 = a + nl + (t + tn);
    let x2 = x1 + nl + (d + dn);
    let x3 = x2 + nl + (c + cn);
    let x4 = x3 + nl + k + nl + (f + s.data_dir);
    let x5 = x4 + nl + g + nl + r + nl;
    assert(q1 =~= x1);
    assert(q2 =~= x2);
    assert(q3 =~= x3);
    assert(q4 =~= x4);
    assert(q5 =~= x5);
}

proof fn needle_is_found(front: Seq<char>, needle: Seq<char>, back: Seq<char>)
    ensures
        text::has_text(front + needle + back, needle),
{
    let s = front + needle + back;
    assert(s.subrange(front.len() as int, (front.len() + needle.len()) as int) =~= needle);
    assert(text::occurs_at(s, needle, front.len() as int));
}

/// A line of `tor`'s output that says anywhere that bootstrapping is at a hundred
/// percent means that it is done.
pub proof fn bootstrapping_is_noticed(front: Seq<char>, back: Seq<char>)
    ensures
        supervisor::line_meaning(front + "Bootstrapped 100%"@ + back) == TorLine::Bootstrapped,
{
    needle_is_found(front, "Bootstrapped 100%"@, back);
}

/// A line that does not say so is worth a warning exactly if it is an error, or a
/// warning on bootstrapping.
pub proof fn warnings_are_noticed(line: Seq<char>)
    requires
        !text::has_text(line, "Bootstrapped 100%"@),
    ensures
        supervisor::line_meaning(line) == if text::has_text(line, "[err]"@) || (text::has_text(
            line,
            "[warn]"@,
        ) && text::has_text(line, "Bootstrapped"@)) {
            TorLine::Warning
        } else {
            TorLine::Quiet
        },
{
}

/// Starting `tor` succeeds exactly if it has bootstrapped; the error says what
/// happened instead, after how many seconds, or what could not be read.
pub proof fn start_errors_read_back(end: StartEnd)
    ensures
        supervisor::start_error(end) is None <==> end is Bootstrapped,
        end matches StartEnd::Unreadable { error } ==> supervisor::start_error(end) == Some(
            error@,
        ),
        end is Exited ==> supervisor::start_error(end) == Some(
            "tor exited before finishing bootstrap"@,
        ),
        end is TimedOut ==> (supervisor::start_error(end) matches Some(e) && texts::between(
            e,
            "tor did not finish bootstrapping within "@,
            "s"@,
        ) matches Some(v) && texts::writes(v, 120)),
{
    texts::decimals_read_back(120);
    texts::between_is_found(
        "tor did not finish bootstrapping within "@,
        text::decimal_text(120),
        "s"@,
    );
}

/// `tor` runs once it has bootstrapped, until it is stopped; neither changes its
/// ports or its directory.
pub proof fn tor_runs_once_bootstrapped(s: Supervision, end: StartEnd)
    requires
        !s.running,
    ensures
        supervisor::after_start(s, end).running <==> end is Bootstrapped,
        supervisor::after_start(s, end).ports == s.ports,
        supervisor::after_start(s, end).data_dir == s.data_dir,
        supervisor::after_stop(supervisor::after_start(s, end)) == s,
{
}

// ---------------------------------------------------------------------------
// The control port.
// ---------------------------------------------------------------------------
/// The command that authenticates carries the cookie: two hexadecimal digits for
/// each byte, in order.
pub proof fn cookies_read_back(cookie: Seq<u8>)
    ensures
        texts::between(control::authenticate_text(cookie), "AUTHENTICATE "@, "\r\n"@) matches Some(
            hex,
        ) && hex.len() == 2 * cookie.len() && forall|i: int|
            #![trigger cookie[i]]
            0 <= i < cookie.len() ==> 16 * texts::hex_value(hex[2 * i]) + texts::hex_value(
                hex[2 * i + 1],
            ) == cookie[i],
{
    let hex = text::hex_text(cookie);
    texts::between_is_found("AUTHENTICATE "@, hex, "\r\n"@);
    if cookie.len() == 0 {
        texts::hex_of_nothing(cookie);
    } else {
        texts::hex_reads_back(cookie, 0);
    }
    assert forall|i: int|
        #![trigger cookie[i]]
        0 <= i < cookie.len() implies 16 * texts::hex_value(hex[2 * i]) + texts::hex_value(
        hex[2 * i + 1],
    ) == cookie[i] by {
        texts::hex_reads_back(cookie, i);
    }
}

/// A command has succeeded exactly if the reply begins with 250; else the error
/// quotes the reply.
pub proof fn replies_read_back(line: Seq<char>)
    ensures
        control::reply_outcome(Some(line)) is Ok <==> texts::begins_with(line, "250"@),
        control::reply_outcome(Some(line)) matches Err(e) ==> texts::begins_with(
            e,
            "unexpected ControlPort reply: "@,
        ) && e.skip("unexpected ControlPort reply: "@.len() as int) == line,
        control::reply_outcome(None) is Err,
{
    texts::behind_is_found("unexpected ControlPort reply: "@, line);
    assert("250"@.is_prefix_of(line) <==> texts::begins_with(line, "250"@)) by {
        if texts::begins_with(line, "250"@) {
            assert(line.take("250"@.len() as int) == line.subrange(0, "250"@.len() as int));
        }
        if "250"@.is_prefix_of(line) {
            assert(line.take("250"@.len() as int) =~= "250"@);
        }
    }
}

/// An event names the status second and the target fourth, whatever words and
/// white space follow.
pub proof fn events_read_back(
    id: Seq<char>,
    status: Seq<char>,
    circuit: Seq<char>,
    target: Seq<char>,
    rest: Seq<char>,
)
    requires
        texts::is_word(id),
        texts::is_word(status),
        texts::is_word(circuit),
        texts::is_word(target),
    ensures
        control::event_of(
            "650 STREAM "@ + (texts::spaced(seq![id, status, circuit, target]) + rest),
        ) == Some((status, target)),
{
    let words = seq![id, status, circuit, target];
    let body = texts::spaced(words) + rest;
    let line = "650 STREAM "@ + body;
    texts::behind_is_found("650 STREAM "@, body);
    assert(line.take("650 STREAM "@.len() as int) == line.subrange(
        0,
        "650 STREAM "@.len() as int,
    ));
    assert("650 STREAM "@.is_prefix_of(line));
    texts::spaced_words(words, rest);
    let all = words + text::words_of(rest);
    assert(all[1] == status && all[3] == target);
}

/// A line that does not begin as an event is none.
pub proof fn other_lines_are_no_events(line: Seq<char>)
    requires
        !texts::begins_with(line, "650 STREAM "@),
    ensures
        control::event_of(line) is None,
{
    if "650 STREAM "@.is_prefix_of(line) {
        assert(line.take("650 STREAM "@.len() as int) =~= "650 STREAM "@);
    }
}

/// An event of fewer than four words is none.
pub proof fn short_events_are_none(rest: Seq<char>)
    requires
        text::words_of(rest).len() < 4,
    ensures
        control::event_of("650 STREAM "@ + rest) is None,
{
    texts::behind_is_found("650 STREAM "@, rest);
}

/// A session goes from authenticating to subscribing to watching, one step for
/// each reply of success, and stays where it is otherwise.
pub proof fn sessions_go_forward(phase: Phase, line: Option<Seq<char>>)
    ensures
        control::phase_after(phase, line) == if line matches Some(l) && texts::begins_with(
            l,
            "250"@,
        ) {
            match phase {
                Phase::Authenticating => Phase::Subscribing,
                _ => Phase::Watching,
            }
        } else {
            phase
        },
{
    if let Some(l) = line {
        replies_read_back(l);
    }
}

/// What a session does after a line: once authenticated it subscribes to streams,
/// once subscribed it reports the events that it reads, and what else it reads it
/// passes over; a reply that is no success ends it, with the command that failed.
pub proof fn sessions_do_what_is_due(
    phase: Phase,
    line: Seq<char>,
    at: u128,
    step: SessionStep,
)
    requires
        control::step_fits(phase, Some(line), at, step),
    ensures
        match phase {
            Phase::Authenticating => if texts::begins_with(line, "250"@) {
                step matches SessionStep::Send(s) && s@ == "SETEVENTS STREAM\r\n"@
            } else {
                step matches SessionStep::Fail { context, cause } && context@
                    == "ControlPort AUTHENTICATE failed"@ && texts::ends_with(cause@, line)
            },
            Phase::Subscribing => if texts::begins_with(line, "250"@) {
                step is Continue
            } else {
                step matches SessionStep::Fail { context, cause } && context@
                    == "ControlPort SETEVENTS failed"@ && texts::ends_with(cause@, line)
            },
            Phase::Watching => match control::event_of(line) {
                Some((status, target)) => step matches SessionStep::Report(e) && e.at == at
                    && e.status@ == status && e.target@ == target,
                None => step is Continue,
            },
        },
{
    replies_read_back(line);
    let head = "unexpected ControlPort reply: "@;
    assert((head + line).skip((head + line).len() - line.len()) =~= line);
}

/// A connection that is closed ends the session, in every phase.
pub proof fn closed_sessions_end(phase: Phase, at: u128, step: SessionStep)
    requires
        control::step_fits(phase, None, at, step),
    ensures
        step is Fail,
        control::phase_after(phase, None) == phase,
{
}

// ---------------------------------------------------------------------------
// `nft` and `id`.
// ---------------------------------------------------------------------------
/// Running a script succeeds exactly if `nft` exits with success. The message of
/// one that does not names the status, and behind it what was printed.
pub proof fn script_outcomes_read_back(run: ScriptRun)
    ensures
        nft::run_outcome(run) is Ok <==> (run matches ScriptRun::Exited { success, .. } && success),
        run matches ScriptRun::Exited { success, status, stderr } ==> !success ==> (
        nft::run_outcome(run) matches Err(e) && e == "nft failed ("@ + status@ + "): "@
            + text::trim_text(stderr@)),
        run is NotSpawned ==> nft::run_outcome(run) == Err::<(), Seq<char>>(
            "failed to spawn `nft` (is nftables installed?)"@,
        ),
        run is NotFed ==> nft::run_outcome(run) == Err::<(), Seq<char>>(
            "failed to write ruleset to `nft` stdin"@,
        ),
        run is NotAwaited ==> nft::run_outcome(run) == Err::<(), Seq<char>>(
            "failed waiting for `nft` to exit"@,
        ),
{
}

/// The message on a switch that could not be enabled or disabled names its table.
pub proof fn switch_errors_name_their_table(table: Seq<char>)
    ensures
        texts::between(
            killswitch::enabling_text(table),
            "failed to enable kill switch (table "@,
            ")"@,
        ) == Some(table),
        texts::between(
            killswitch::disabling_text(table),
            "failed to disable kill switch (table "@,
            ")"@,
        ) == Some(table),
{
    texts::between_is_found("failed to enable kill switch (table "@, table, ")"@);
    texts::between_is_found("failed to disable kill switch (table "@, table, ")"@);
}

/// A table is told present exactly if listing it succeeds, and absent exactly if
/// listing fails for want of it.
pub proof fn table_status_reads_back(success: bool, stderr: Seq<char>)
    ensures
        nft::table_status(success, stderr) == Ok::<bool, Seq<char>>(true) <==> success,
        nft::table_status(success, stderr) == Ok::<bool, Seq<char>>(false) <==> !success
            && text::has_text(stderr, "No such file or directory"@),
        nft::table_status(success, stderr) matches Err(e) ==> texts::begins_with(
            e,
            "nft could not report table status: "@,
        ) && e.skip("nft could not report table status: "@.len() as int) == text::trim_text(stderr),
{
    texts::behind_is_found("nft could not report table status: "@, text::trim_text(stderr));
}

/// Removing a table has worked exactly if `nft` ran, and succeeded or found no
/// such table.
pub proof fn removal_reads_back(run: ScriptRun)
    ensures
        nft::removed(run) <==> (run matches ScriptRun::Exited { success, stderr, .. } && (success
            || text::has_text(stderr@, "No such file or directory"@))),
{
}

/// The user that `id -u` prints is the one that is read.
pub proof fn own_user_reads_back(uid: u32, status: Seq<char>)
    ensures
        killswitch::uid_outcome(true, status, text::decimal_text(uid as nat)) == Ok::<
            u32,
            Seq<char>,
        >(uid),
        killswitch::uid_outcome(true, status, text::decimal_text(uid as nat).push('\n')) == Ok::<
            u32,
            Seq<char>,
        >(uid),
{
    texts::number_lines_are_read(uid);
}

/// No user is read unless `id -u` succeeds; the error names its status.
pub proof fn failed_id_names_no_user(status: Seq<char>, stdout: Seq<char>)
    ensures
        killswitch::uid_outcome(false, status, stdout) matches Err(e) && texts::begins_with(
            e,
            "`id -u` exited with "@,
        ) && e.skip("`id -u` exited with "@.len() as int) == status,
{
    texts::behind_is_found("`id -u` exited with "@, status);
}

// ---------------------------------------------------------------------------
// A previous instance.
// ---------------------------------------------------------------------------
/// The process that wrote its number into the lock file is the one that is read.
pub proof fn lock_files_read_back(pid: u32)
    ensures
        instance_lock::pid_of(Some(text::decimal_text(pid as nat))) == Some(pid),
        instance_lock::pid_of(Some(text::decimal_text(pid as nat).push('\n'))) == Some(pid),
        instance_lock::pid_of(None) is None,
{
    texts::number_lines_are_read(pid);
}

/// A process is looked at and signalled by its own number.
pub proof fn process_numbers_read_back(pid: u32)
    ensures
        texts::begins_with(instance_lock::process_path_text(pid), "/proc/"@),
        texts::writes(
            instance_lock::process_path_text(pid).skip("/proc/"@.len() as int),
            pid as int,
        ),
        texts::begins_with(instance_lock::group_text(pid), "-"@),
        texts::writes(instance_lock::group_text(pid).skip("-"@.len() as int), pid as int),
{
    let d = text::decimal_text(pid as nat);
    texts::decimals_read_back(pid as nat);
    texts::behind_is_found("/proc/"@, d);
    texts::behind_is_found("-"@, d);
}

/// What is said of a takeover names the process.
pub proof fn takeover_messages_read_back(pid: u32)
    ensures
        instance_lock::move_text(pid, Move::SendTerm) matches Some(s) && texts::between(
            s,
            "a previous anonet instance is still running (PID "@,
            "); stopping it..."@,
        ) matches Some(v) && texts::writes(v, pid as int),
        instance_lock::move_text(pid, Move::SendKill) matches Some(s) && texts::between(
            s,
            "PID "@,
            " ignored SIGTERM; sending SIGKILL..."@,
        ) matches Some(v) && texts::writes(v, pid as int),
        instance_lock::move_text(pid, Move::GiveUp) matches Some(s) && texts::between(
            s,
            "PID "@,
            " would not die even after SIGKILL; stop it manually and retry."@,
        ) matches Some(v) && texts::writes(v, pid as int),
{
    let d = text::decimal_text(pid as nat);
    texts::decimals_read_back(pid as nat);
    texts::between_is_found(
        "a previous anonet instance is still running (PID "@,
        d,
        "); stopping it..."@,
    );
    texts::between_is_found("PID "@, d, " ignored SIGTERM; sending SIGKILL..."@);
    texts::between_is_found(
        "PID "@,
        d,
        " would not die even after SIGKILL; stop it manually and retry."@,
    );
}

/// The stage of a takeover after so many looks that all found the old process
/// alive.
pub open spec fn stage_after(looks: nat) -> Stage
    decreases looks,
{
    if looks == 0 {
        Stage::First
    } else {
        instance_lock::looked(stage_after((looks - 1) as nat), true).0
    }
}

proof fn stages_in_order(looks: nat)
    requires
        looks <= 72,
    ensures
        stage_after(looks) == if looks == 0 {
            Stage::First
        } else if looks <= 50 {
            Stage::Terminated((looks - 1) as u32)
        } else if looks == 51 {
            Stage::TermVerdict
        } else if looks <= 71 {
            Stage::Killed((looks - 52) as u32)
        } else {
            Stage::KillVerdict
        },
    decreases looks,
{
    if looks > 0 {
        stages_in_order((looks - 1) as nat);
    }
}

/// A process that stays alive is sent SIGTERM at once, is waited for fifty times a
/// tenth of a second, is sent SIGKILL, is waited for twenty times more, and is
/// then given up on.
pub proof fn stubborn_process_is_given_time(looks: nat)
    requires
        looks <= 72,
    ensures
        instance_lock::POLL_MS == 100,
        instance_lock::looked(stage_after(looks), true).1 == if looks == 0 {
            Move::SendTerm
        } else if looks <= 50 {
            Move::Wait
        } else if looks == 51 {
            Move::SendKill
        } else if looks <= 71 {
            Move::Wait
        } else {
            Move::GiveUp
        },
{
    stages_in_order(looks);
}

/// A process that is found gone is not waited for: nothing is in the way if it was
/// gone from the start, else it counts as stopped, at the latest at a second look.
pub proof fn gone_process_is_not_waited_for(stage: Stage)
    ensures
        ({
            let (next, first) = instance_lock::looked(stage, false);
            let second = instance_lock::looked(next, false).1;
            match stage {
                Stage::First => first == Move::Proceed,
                Stage::TermVerdict | Stage::KillVerdict => first == Move::Stopped,
                _ => first == Move::Look && second == Move::Stopped,
            }
        }),
{
}

// ---------------------------------------------------------------------------
// Files.
// ---------------------------------------------------------------------------
proof fn one_slash(dir: Seq<char>, name: Seq<char>)
    requires
        dir.len() > 0,
        dir.last() != '/',
        name.len() > 0,
        name[0] != '/',
    ensures
        text::path_text(dir, name) == dir + seq!['/'] + name,
{
    texts::paths_have_one_slash(dir, name);
    let path = text::path_text(dir, name);
    let n = dir.len() as int;
    assert(path =~= path.take(n) + seq![path[n]] + path.skip(n + 1));
}

/// anonet's files are in its own directory under the data directory, or under the
/// current one.
pub proof fn files_are_in_their_place(dir: Seq<char>, name: Seq<char>)
    requires
        dir.len() > 0,
        dir.last() != '/',
        name.len() > 0,
        name[0] != '/',
    ensures
        paths::data_file_text(Some(dir), name) == dir + "/anonet/"@ + name,
        paths::data_file_text(None, name) == "./anonet/"@ + name,
{
    reveal_strlit("anonet");
    reveal_strlit("/anonet/");
    reveal_strlit("./anonet/");
    reveal_strlit(".");
    let slash = seq!['/'];
    one_slash(dir, "anonet"@);
    one_slash(dir + slash + "anonet"@, name);
    one_slash("."@, "anonet"@);
    one_slash("."@ + slash + "anonet"@, name);
    assert("/anonet/"@ =~= slash + "anonet"@ + slash);
    assert("./anonet/"@ =~= "."@ + slash + "anonet"@ + slash);
    assert((dir + slash + "anonet"@).last() == 't');
    assert(("."@ + slash + "anonet"@).last() == 't');
    assert(dir + slash + "anonet"@ + slash + name =~= dir + (slash + "anonet"@ + slash) + name);
}

// ---------------------------------------------------------------------------
// Full anonymization.
// ---------------------------------------------------------------------------
/// Enabling that nothing hinders starts `tor`, the redirection and the switch, for
/// the same user, and is done.
pub proof fn enabling_goes_on_for_its_user(uid: u32)
    ensures
        ({
            let good = Ok::<(), String>(());
            let first = EnableStep::StartTor { uid };
            let second = full_anon::step_after(first, good);
            let third = full_anon::step_after(second, good);
            &&& second == (EnableStep::EnableRedirect { uid })
            &&& third == (EnableStep::EnableRadical { uid })
            &&& full_anon::step_after(third, good) == EnableStep::Done
        }),
{
}

/// What is redirected goes where `tor` listens: the ports of the redirection are
/// the ones that `tor` is configured with.
pub proof fn redirection_meets_tor(s: Supervision, anonet_uid: u32)
    requires
        texts::is_line(s.data_dir),
    ensures
        ({
            let r = full_anon::redirect_to(s.ports, anonet_uid);
            let lines = text::lines_of(supervisor::torrc_text(s));
            &&& r.anonet_uid == anonet_uid
            &&& texts::writes(
                lines[1].skip("TransPort 127.0.0.1:"@.len() as int),
                r.trans_port as int,
            )
            &&& texts::writes(lines[2].skip("DNSPort 127.0.0.1:"@.len() as int), r.dns_port as int)
        }),
{
    torrc_reads_back(s);
}

/// Full anonymization is reported on exactly when enabling is done; an error is
/// reported exactly when it has failed; nothing else changes.
pub proof fn enabling_is_reported(
    before: HealthStatus,
    after: HealthStatus,
    step: EnableStep,
    now: u128,
)
    requires
        full_anon::step_reported(before, after, step, now),
    ensures
        after.transparent_enabled == (before.transparent_enabled || step is Done),
        step matches EnableStep::Failed { error } ==> (after.last_error matches Some(r) && r.message@
            == error@ && r.at == now),
        !(step is Failed) ==> after.last_error == before.last_error,
        (HealthStatus {
            transparent_enabled: before.transparent_enabled,
            last_error: before.last_error,
            ..after
        }) == before,
{
}

/// The step at the end of undoing, whatever came of each step.
pub open spec fn undone_to_the_end(
    step: EnableStep,
    first: Result<(), String>,
    second: Result<(), String>,
) -> EnableStep {
    full_anon::step_after(full_anon::step_after(step, first), second)
}

/// The error that enabling ends with is the one that it failed with, whatever came
/// of undoing.
pub proof fn enabling_reports_its_error(
    uid: u32,
    error: String,
    first: Result<(), String>,
    second: Result<(), String>,
)
    ensures
        ({
            let bad = Err::<(), String>(error);
            let failed = EnableStep::Failed { error };
            &&& full_anon::step_after(EnableStep::StartTor { uid }, bad) == failed
            &&& undone_to_the_end(
                full_anon::step_after(EnableStep::EnableRedirect { uid }, bad),
                first,
                second,
            ) == failed
            &&& undone_to_the_end(
                full_anon::step_after(EnableStep::EnableRadical { uid }, bad),
                first,
                second,
            ) == failed
        }),
{
}

} // verus!
