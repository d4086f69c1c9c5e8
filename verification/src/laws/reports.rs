//! Reports for people, as they are read: line by line, each by its label.
use crate::cli::{self, Bootstrap, KsMode};
use crate::dashboard;
use crate::killswitch::KillSwitch;
use crate::laws::texts;
use crate::status;
use crate::telemetry::{CandidateStatus, HealthSample, HealthStatus};
use crate::text;
use vstd::prelude::*;

verus! {

// ---------------------------------------------------------------------------
// The status report.
// ---------------------------------------------------------------------------
spec fn status_values(
    socks_addr: Seq<char>,
    health: HealthStatus,
    dns_addr: Option<Seq<char>>,
) -> Seq<Seq<char>> {
    seq![
        socks_addr,
        text::decimal_text(health.socks_connections_active as nat),
        text::decimal_text(health.socks_connections_total as nat),
        match dns_addr {
            Some(a) => a,
            None => "stopped"@,
        },
        match health.active_bridge_line {
            Some(line) => line@,
            None => "none (direct connection)"@,
        },
        text::decimal_text(health.candidates@.len()),
        text::decimal_text(health.consecutive_failures as nat),
        text::decimal_text(health.total_switches as nat),
        if health.transparent_enabled {
            "running"@
        } else {
            "stopped"@
        },
        match health.last_error {
            Some(r) => r.message@,
            None => "none"@,
        },
    ]
}

spec fn status_labels() -> Seq<Seq<char>> {
    seq![
        "socks_listening: "@,
        "socks_connections_active: "@,
        "socks_connections_total: "@,
        "dns_shim: "@,
        "active_bridge: "@,
        "bridge_candidates: "@,
        "consecutive_failures: "@,
        "total_bridge_switches: "@,
        "full_anonymization: "@,
        "last_error: "@,
    ]
}

proof fn labels_are_lines()
    ensures
        "\nsocks_connections_active: "@ == seq!['\n'] + "socks_connections_active: "@,
        "\nsocks_connections_total: "@ == seq!['\n'] + "socks_connections_total: "@,
        "\ndns_shim: "@ == seq!['\n'] + "dns_shim: "@,
        "\nactive_bridge: "@ == seq!['\n'] + "active_bridge: "@,
        "\nbridge_candidates: "@ == seq!['\n'] + "bridge_candidates: "@,
        "\nconsecutive_failures: "@ == seq!['\n'] + "consecutive_failures: "@,
        "\ntotal_bridge_switches: "@ == seq!['\n'] + "total_bridge_switches: "@,
        "\nfull_anonymization: "@ == seq!['\n'] + "full_anonymization: "@,
        "\nlast_error: "@ == seq!['\n'] + "last_error: "@,
        texts::all_lines(status_labels()),
{
    reveal_strlit("socks_listening: ");
    reveal_strlit("socks_connections_active: ");
    reveal_strlit("socks_connections_total: ");
    reveal_strlit("dns_shim: ");
    reveal_strlit("active_bridge: ");
    reveal_strlit("bridge_candidates: ");
    reveal_strlit("consecutive_failures: ");
    reveal_strlit("total_bridge_switches: ");
    reveal_strlit("full_anonymization: ");
    reveal_strlit("last_error: ");
    reveal_strlit("\nsocks_connections_active: ");
    reveal_strlit("\nsocks_connections_total: ");
    reveal_strlit("\ndns_shim: ");
    reveal_strlit("\nactive_bridge: ");
    reveal_strlit("\nbridge_candidates: ");
    reveal_strlit("\nconsecutive_failures: ");
    reveal_strlit("\ntotal_bridge_switches: ");
    reveal_strlit("\nfull_anonymization: ");
    reveal_strlit("\nlast_error: ");
    assert("\nsocks_connections_active: "@ =~= seq!['\n'] + "socks_connections_active: "@);
    assert("\nsocks_connections_total: "@ =~= seq!['\n'] + "socks_connections_total: "@);
    assert("\ndns_shim: "@ =~= seq!['\n'] + "dns_shim: "@);
    assert("\nactive_bridge: "@ =~= seq!['\n'] + "active_bridge: "@);
    assert("\nbridge_candidates: "@ =~= seq!['\n'] + "bridge_candidates: "@);
    assert("\nconsecutive_failures: "@ =~= seq!['\n'] + "consecutive_failures: "@);
    assert("\ntotal_bridge_switches: "@ =~= seq!['\n'] + "total_bridge_switches: "@);
    assert("\nfull_anonymization: "@ =~= seq!['\n'] + "full_anonymization: "@);
    assert("\nlast_error: "@ =~= seq!['\n'] + "last_error: "@);
    assert(texts::is_line("socks_listening: "@));
    assert(texts::is_line("socks_connections_active: "@));
    assert(texts::is_line("socks_connections_total: "@));
    assert(texts::is_line("dns_shim: "@));
    assert(texts::is_line("active_bridge: "@));
    assert(texts::is_line("bridge_candidates: "@));
    assert(texts::is_line("consecutive_failures: "@));
    assert(texts::is_line("total_bridge_switches: "@));
    assert(texts::is_line("full_anonymization: "@));
    assert(texts::is_line("last_error: "@));
}

spec fn status_lines(values: Seq<Seq<char>>) -> Seq<Seq<char>> {
    Seq::new(10, |i: int| status_labels()[i] + values[i])
}

proof fn status_is_lined(socks_addr: Seq<char>, health: HealthStatus, dns_addr: Option<Seq<char>>)
    ensures
        status::status_text(socks_addr, health, dns_addr) == texts::lined(
            status_lines(status_values(socks_addr, health, dns_addr)),
        ),
{
    labels_are_lines();
    reveal_strlit("\n");
    assert("\n"@ =~= seq!['\n']);
    let v = status_values(socks_addr, health, dns_addr);
    let all = status_lines(v);
    let p0 = "socks_listening: "@ + v[0];
    texts::one_line(p0);
    let l0 = seq![p0];
    let p1 = p0 + "\nsocks_connections_active: "@ + v[1];
    texts::next_line(p0, l0, "socks_connections_active: "@, v[1]);
    let l1 = l0.push("socks_connections_active: "@ + v[1]);
    let p2 = p1 + "\nsocks_connections_total: "@ + v[2];
    texts::next_line(p1, l1, "socks_connections_total: "@, v[2]);
    let l2 = l1.push("socks_connections_total: "@ + v[2]);
    let p3 = p2 + "\ndns_shim: "@ + v[3];
    texts::next_line(p2, l2, "dns_shim: "@, v[3]);
    let l3 = l2.push("dns_shim: "@ + v[3]);
    let p4 = p3 + "\nactive_bridge: "@ + v[4];
    texts::next_line(p3, l3, "active_bridge: "@, v[4]);
    let l4 = l3.push("active_bridge: "@ + v[4]);
    let p5 = p4 + "\nbridge_candidates: "@ + v[5];
    texts::next_line(p4, l4, "bridge_candidates: "@, v[5]);
    let l5 = l4.push("bridge_candidates: "@ + v[5]);
    let p6 = p5 + "\nconsecutive_failures: "@ + v[6];
    texts::next_line(p5, l5, "consecutive_failures: "@, v[6]);
    let l6 = l5.push("consecutive_failures: "@ + v[6]);
    let p7 = p6 + "\ntotal_bridge_switches: "@ + v[7];
    texts::next_line(p6, l6, "total_bridge_switches: "@, v[7]);
    let l7 = l6.push("total_bridge_switches: "@ + v[7]);
    let p8 = p7 + "\nfull_anonymization: "@ + v[8];
    texts::next_line(p7, l7, "full_anonymization: "@, v[8]);
    let l8 = l7.push("full_anonymization: "@ + v[8]);
    let p9 = p8 + "\nlast_error: "@ + v[9];
    texts::next_line(p8, l8, "last_error: "@, v[9]);
    let l9 = l8.push("last_error: "@ + v[9]);
    assert(status::status_text(socks_addr, health, dns_addr) == p9 + "\n"@);
    assert(l9 =~= all);
}

proof fn labels_differ(i: int, j: int, v: Seq<char>)
    requires
        0 <= i < j < 10,
    ensures
        !texts::begins_with(status_labels()[i] + v, status_labels()[j]),
{
    reveal_strlit("socks_listening: ");
    reveal_strlit("socks_connections_active: ");
    reveal_strlit("socks_connections_total: ");
    reveal_strlit("dns_shim: ");
    reveal_strlit("active_bridge: ");
    reveal_strlit("bridge_candidates: ");
    reveal_strlit("consecutive_failures: ");
    reveal_strlit("total_bridge_switches: ");
    reveal_strlit("full_anonymization: ");
    reveal_strlit("last_error: ");
    let a = status_labels()[i];
    let b = status_labels()[j];
    let k = if i == 0 && j <= 2 {
        6
    } else if i == 1 && j == 2 {
        18int
    } else {
        0
    };
    assert(k < a.len() && k < b.len() && a[k] != b[k]);
    assert((a + v)[k] == a[k]);
    texts::begins_otherwise(a + v, b, k);
}

/// Each field of the report is read back from the line that begins with its
/// label, whatever the other fields hold.
#[verifier::rlimit(40)]
pub proof fn status_reads_back(
    socks_addr: Seq<char>,
    health: HealthStatus,
    dns_addr: Option<Seq<char>>,
)
    requires
        texts::is_line(socks_addr),
        dns_addr matches Some(a) ==> texts::is_line(a),
        health.active_bridge_line matches Some(line) ==> texts::is_line(line@),
        health.last_error matches Some(r) ==> texts::is_line(r.message@),
    ensures
        ({
            let lines = text::lines_of(status::status_text(socks_addr, health, dns_addr));
            &&& lines.len() == 10
            &&& texts::field(lines, "socks_listening: "@) == Some(socks_addr)
            &&& texts::field(lines, "socks_connections_active: "@) matches Some(v)
                && texts::writes(v, health.socks_connections_active as int)
            &&& texts::field(lines, "socks_connections_total: "@) matches Some(v)
                && texts::writes(v, health.socks_connections_total as int)
            &&& texts::field(lines, "dns_shim: "@) == match dns_addr {
                Some(a) => Some(a),
                None => Some("stopped"@),
            }
            &&& texts::field(lines, "active_bridge: "@) == match health.active_bridge_line {
                Some(line) => Some(line@),
                None => Some("none (direct connection)"@),
            }
            &&& texts::field(lines, "bridge_candidates: "@) matches Some(v)
                && texts::writes(v, health.candidates@.len() as int)
            &&& texts::field(lines, "consecutive_failures: "@) matches Some(v)
                && texts::writes(v, health.consecutive_failures as int)
            &&& texts::field(lines, "total_bridge_switches: "@) matches Some(v)
                && texts::writes(v, health.total_switches as int)
            &&& texts::field(lines, "full_anonymization: "@) == if health.transparent_enabled {
                Some("running"@)
            } else {
                Some("stopped"@)
            }
            &&& texts::field(lines, "last_error: "@) == match health.last_error {
                Some(r) => Some(r.message@),
                None => Some("none"@),
            }
        }),
{
    let v = status_values(socks_addr, health, dns_addr);
    let all = status_lines(v);
    let labels = status_labels();
    labels_are_lines();
    status_is_lined(socks_addr, health, dns_addr);
    reveal_strlit("stopped");
    reveal_strlit("running");
    reveal_strlit("none");
    reveal_strlit("none (direct connection)");
    texts::decimals_read_back(health.socks_connections_active as nat);
    texts::decimals_read_back(health.socks_connections_total as nat);
    texts::decimals_read_back(health.candidates@.len());
    texts::decimals_read_back(health.consecutive_failures as nat);
    texts::decimals_read_back(health.total_switches as nat);
    texts::writing_is_line(v[1], health.socks_connections_active as int);
    texts::writing_is_line(v[2], health.socks_connections_total as int);
    texts::writing_is_line(v[5], health.candidates@.len() as int);
    texts::writing_is_line(v[6], health.consecutive_failures as int);
    texts::writing_is_line(v[7], health.total_switches as int);
    assert(texts::is_line("stopped"@));
    assert(texts::is_line("running"@));
    assert(texts::is_line("none"@));
    assert(texts::is_line("none (direct connection)"@));
    assert forall|i: int| 0 <= i < 10 implies texts::is_line(#[trigger] all[i]) by {
        assert(texts::is_line(labels[i]));
        assert(texts::is_line(v[i]));
        texts::lines_join(labels[i], v[i]);
    }
    texts::lines_read_back(all);
    assert forall|j: int| 0 <= j < 10 implies texts::field(all, #[trigger] labels[j]) == Some(
        v[j],
    ) by {
        assert forall|i: int| 0 <= i < j implies !texts::begins_with(
            #[trigger] all[i],
            labels[j],
        ) by {
            labels_differ(i, j, v[i]);
        }
        texts::field_is_found(all, j, labels[j], v[j]);
    }
    assert(labels[0] == "socks_listening: "@);
    assert(labels[1] == "socks_connections_active: "@);
    assert(labels[2] == "socks_connections_total: "@);
    assert(labels[3] == "dns_shim: "@);
    assert(labels[4] == "active_bridge: "@);
    assert(labels[5] == "bridge_candidates: "@);
    assert(labels[6] == "consecutive_failures: "@);
    assert(labels[7] == "total_bridge_switches: "@);
    assert(labels[8] == "full_anonymization: "@);
    assert(labels[9] == "last_error: "@);
}

// ---------------------------------------------------------------------------
// The panels of the dashboard.
// ---------------------------------------------------------------------------
/// Two digits are exactly two, for what has no more.
proof fn two_digits_are_two(n: nat)
    requires
        n < 100,
    ensures
        text::two_digit_text(n).len() == 2,
{
    reveal_with_fuel(text::decimal_text, 3);
}

/// The uptime in the header, read as hours, minutes and seconds, is the uptime.
pub proof fn header_reads_back(uptime_secs: nat)
    ensures
        ({
            let line = dashboard::header_line(uptime_secs);
            let prefix = "anonet \u{2014} live status        uptime "@;
            let clock = line.skip(prefix.len() as int);
            let n = clock.len() as int;
            let hours = clock.take(n - 6);
            let minutes = clock.subrange(n - 5, n - 3);
            let seconds = clock.skip(n - 2);
            &&& texts::begins_with(line, prefix)
            &&& n >= 8
            &&& clock[n - 6] == ':' && clock[n - 3] == ':'
            &&& texts::all_digits(hours) && texts::all_digits(minutes) && texts::all_digits(seconds)
            &&& texts::decimal_value(minutes) < 60 && texts::decimal_value(seconds) < 60
            &&& 3600 * texts::decimal_value(hours) + 60 * texts::decimal_value(minutes)
                + texts::decimal_value(seconds) == uptime_secs
        }),
{
    let line = dashboard::header_line(uptime_secs);
    let prefix = "anonet \u{2014} live status        uptime "@;
    let h = text::two_digit_text(uptime_secs / 3600);
    let m = text::two_digit_text((uptime_secs / 60) % 60);
    let s = text::two_digit_text(uptime_secs % 60);
    texts::two_digits_read_back(uptime_secs / 3600);
    texts::two_digits_read_back((uptime_secs / 60) % 60);
    texts::two_digits_read_back(uptime_secs % 60);
    two_digits_are_two((uptime_secs / 60) % 60);
    two_digits_are_two(uptime_secs % 60);
    reveal_strlit(":");
    let clock = h + ":"@ + m + ":"@ + s;
    assert(line =~= prefix + clock);
    texts::behind_is_found(prefix, clock);
    let n = clock.len() as int;
    assert(clock.take(n - 6) =~= h);
    assert(clock.subrange(n - 5, n - 3) =~= m);
    assert(clock.skip(n - 2) =~= s);
    assert(3600 * (uptime_secs / 3600) + 60 * ((uptime_secs / 60) % 60) + uptime_secs % 60
        == uptime_secs);
}

/// How long ago a time was is told in whole seconds; a time that is still to come
/// is told as such, and none at all as well.
pub proof fn times_read_back(t: Option<u128>, now: u128) -> (secs: int)
    ensures
        match t {
            None => dashboard::time_text(t, now) == "never"@,
            Some(at) => if at > now {
                dashboard::time_text(t, now) == "just now"@
            } else {
                &&& 1_000_000_000 * secs <= now - at < 1_000_000_000 * (secs + 1)
                &&& texts::between(dashboard::time_text(t, now), seq![], "s ago"@) matches Some(v)
                    && texts::writes(v, secs)
            },
        },
{
    let n = match t {
        Some(at) => if at <= now {
            ((now - at) / 1_000_000_000) as nat
        } else {
            0
        },
        None => 0,
    };
    let v = text::decimal_text(n);
    texts::decimals_read_back(n);
    texts::between_is_found(seq![], v, "s ago"@);
    assert(seq![] + v + "s ago"@ =~= v + "s ago"@);
    n as int
}

/// A time is told on one line.
proof fn times_are_lines(t: Option<u128>, now: u128)
    ensures
        texts::is_line(dashboard::time_text(t, now)),
{
    reveal_strlit("never");
    reveal_strlit("just now");
    reveal_strlit("s ago");
    assert(texts::is_line("never"@));
    assert(texts::is_line("just now"@));
    assert(texts::is_line("s ago"@));
    if let Some(at) = t {
        if at <= now {
            let n = ((now - at) / 1_000_000_000) as nat;
            texts::decimals_read_back(n);
            texts::writing_is_line(text::decimal_text(n), n as int);
            texts::lines_join(text::decimal_text(n), "s ago"@);
        }
    }
}

spec fn bridge_labels() -> Seq<Seq<char>> {
    seq![
        "active bridge:       "@,
        "consecutive failures: "@,
        "total failovers:      "@,
        "last check:           "@,
        "last switch:          "@,
    ]
}

spec fn bridge_values(health: HealthStatus, now: u128) -> Seq<Seq<char>> {
    seq![
        match health.active_bridge_line {
            Some(line) => line@,
            None => "(direct, no bridge)"@,
        },
        text::decimal_text(health.consecutive_failures as nat),
        text::decimal_text(health.total_switches as nat),
        dashboard::time_text(health.last_check_at, now),
        dashboard::time_text(health.last_switch_at, now),
    ]
}

proof fn bridge_panel_is_lined(health: HealthStatus, now: u128)
    ensures
        ({
            let v = bridge_values(health, now);
            let lines = Seq::new(5, |i: int| bridge_labels()[i] + v[i]);
            dashboard::bridge_panel(health, now) + seq!['\n'] == texts::lined(lines)
        }),
        texts::all_lines(bridge_labels()),
{
    reveal_strlit("active bridge:       ");
    reveal_strlit("consecutive failures: ");
    reveal_strlit("total failovers:      ");
    reveal_strlit("last check:           ");
    reveal_strlit("last switch:          ");
    reveal_strlit("\nconsecutive failures: ");
    reveal_strlit("\ntotal failovers:      ");
    reveal_strlit("\nlast check:           ");
    reveal_strlit("\nlast switch:          ");
    assert("\nconsecutive failures: "@ =~= seq!['\n'] + "consecutive failures: "@);
    assert("\ntotal failovers:      "@ =~= seq!['\n'] + "total failovers:      "@);
    assert("\nlast check:           "@ =~= seq!['\n'] + "last check:           "@);
    assert("\nlast switch:          "@ =~= seq!['\n'] + "last switch:          "@);
    assert(texts::is_line("active bridge:       "@));
    assert(texts::is_line("consecutive failures: "@));
    assert(texts::is_line("total failovers:      "@));
    assert(texts::is_line("last check:           "@));
    assert(texts::is_line("last switch:          "@));
    let v = bridge_values(health, now);
    let lines = Seq::new(5, |i: int| bridge_labels()[i] + v[i]);
    let p0 = "active bridge:       "@ + v[0];
    texts::one_line(p0);
    let l0 = seq![p0];
    let p1 = p0 + "\nconsecutive failures: "@ + v[1];
    texts::next_line(p0, l0, "consecutive failures: "@, v[1]);
    let l1 = l0.push("consecutive failures: "@ + v[1]);
    let p2 = p1 + "\ntotal failovers:      "@ + v[2];
    texts::next_line(p1, l1, "total failovers:      "@, v[2]);
    let l2 = l1.push("total failovers:      "@ + v[2]);
    let p3 = p2 + "\nlast check:           "@ + v[3];
    texts::next_line(p2, l2, "last check:           "@, v[3]);
    let l3 = l2.push("last check:           "@ + v[3]);
    let p4 = p3 + "\nlast switch:          "@ + v[4];
    texts::next_line(p3, l3, "last switch:          "@, v[4]);
    let l4 = l3.push("last switch:          "@ + v[4]);
    assert(dashboard::bridge_panel(health, now) == p4);
    assert(l4 =~= lines);
}

proof fn bridge_labels_differ(i: int, j: int, v: Seq<char>)
    requires
        0 <= i < j < 5,
    ensures
        !texts::begins_with(bridge_labels()[i] + v, bridge_labels()[j]),
{
    reveal_strlit("active bridge:       ");
    reveal_strlit("consecutive failures: ");
    reveal_strlit("total failovers:      ");
    reveal_strlit("last check:           ");
    reveal_strlit("last switch:          ");
    let a = bridge_labels()[i];
    let b = bridge_labels()[j];
    let k = if i == 3 && j == 4 {
        5int
    } else {
        0
    };
    assert(k < a.len() && k < b.len() && a[k] != b[k]);
    assert((a + v)[k] == a[k]);
    texts::begins_otherwise(a + v, b, k);
}

/// Each field of the bridge panel is read back from the line that begins with its
/// label.
pub proof fn bridge_panel_reads_back(health: HealthStatus, now: u128)
    requires
        health.active_bridge_line matches Some(line) ==> texts::is_line(line@),
    ensures
        ({
            let lines = text::lines_of(dashboard::bridge_panel(health, now) + seq!['\n']);
            &&& lines.len() == 5
            &&& texts::field(lines, "active bridge:       "@) == match health.active_bridge_line {
                Some(line) => Some(line@),
                None => Some("(direct, no bridge)"@),
            }
            &&& texts::field(lines, "consecutive failures: "@) matches Some(v) && texts::writes(
                v,
                health.consecutive_failures as int,
            )
            &&& texts::field(lines, "total failovers:      "@) matches Some(v) && texts::writes(
                v,
                health.total_switches as int,
            )
            &&& texts::field(lines, "last check:           "@) == Some(
                dashboard::time_text(health.last_check_at, now),
            )
            &&& texts::field(lines, "last switch:          "@) == Some(
                dashboard::time_text(health.last_switch_at, now),
            )
        }),
{
    let v = bridge_values(health, now);
    let labels = bridge_labels();
    let all = Seq::new(5, |i: int| labels[i] + v[i]);
    bridge_panel_is_lined(health, now);
    reveal_strlit("(direct, no bridge)");
    assert(texts::is_line("(direct, no bridge)"@));
    texts::decimals_read_back(health.consecutive_failures as nat);
    texts::decimals_read_back(health.total_switches as nat);
    texts::writing_is_line(v[1], health.consecutive_failures as int);
    texts::writing_is_line(v[2], health.total_switches as int);
    times_are_lines(health.last_check_at, now);
    times_are_lines(health.last_switch_at, now);
    assert forall|i: int| 0 <= i < 5 implies texts::is_line(#[trigger] all[i]) by {
        assert(texts::is_line(labels[i]));
        assert(texts::is_line(v[i]));
        texts::lines_join(labels[i], v[i]);
    }
    texts::lines_read_back(all);
    assert forall|j: int| 0 <= j < 5 implies texts::field(all, #[trigger] labels[j]) == Some(
        v[j],
    ) by {
        assert forall|i: int| 0 <= i < j implies !texts::begins_with(
            #[trigger] all[i],
            labels[j],
        ) by {
            bridge_labels_differ(i, j, v[i]);
        }
        texts::field_is_found(all, j, labels[j], v[j]);
    }
    assert(labels[0] == "active bridge:       "@);
    assert(labels[1] == "consecutive failures: "@);
    assert(labels[2] == "total failovers:      "@);
    assert(labels[3] == "last check:           "@);
    assert(labels[4] == "last switch:          "@);
}

/// The line on the DNS shim says where it listens, if it runs.
pub proof fn dns_line_reads_back(addr: Option<Seq<char>>)
    ensures
        match addr {
            Some(a) => texts::between(
                dashboard::dns_line(addr),
                "DNS shim:  UP on "@,
                "  (n to stop)"@,
            ) == Some(a),
            None => dashboard::dns_line(addr) == "DNS shim:  not running  (n to start)"@,
        },
{
    if let Some(a) = addr {
        texts::between_is_found("DNS shim:  UP on "@, a, "  (n to stop)"@);
    }
}

/// The line on the bridges says how many are configured.
pub proof fn bridges_line_reads_back(count: nat)
    ensures
        count == 0 ==> dashboard::bridges_line(count)
            == "Bridges:   none configured (running in direct mode, a to add one)"@,
        count > 0 ==> (texts::between(
            dashboard::bridges_line(count),
            "Bridges:   "@,
            " configured \u{2014} see the candidates table below"@,
        ) matches Some(v) && texts::writes(v, count as int)),
{
    if count > 0 {
        texts::decimals_read_back(count);
        texts::between_is_found(
            "Bridges:   "@,
            text::decimal_text(count),
            " configured \u{2014} see the candidates table below"@,
        );
    }
}

/// The services panel has one line each on the SOCKS proxy, the DNS shim, the
/// bridges and full anonymization. That on the proxy says where it listens, how
/// many connections there were, and how many there are.
#[verifier::rlimit(40)]
pub proof fn services_panel_reads_back(
    socks_addr: Seq<char>,
    health: HealthStatus,
    dns_addr: Option<Seq<char>>,
) -> (counts: (Seq<char>, Seq<char>))
    requires
        texts::is_line(socks_addr),
        dns_addr matches Some(a) ==> texts::is_line(a),
    ensures
        texts::writes(counts.0, health.socks_connections_total as int),
        texts::writes(counts.1, health.socks_connections_active as int),
        ({
            let lines = text::lines_of(
                dashboard::services_panel(socks_addr, health, dns_addr) + seq!['\n'],
            );
            &&& lines.len() == 4
            &&& lines[0] == "SOCKS5:    UP on "@ + socks_addr + "   ("@ + counts.0
                + " connections total, "@ + counts.1 + " active)"@
            &&& lines[1] == dashboard::dns_line(dns_addr)
            &&& lines[2] == dashboard::bridges_line(health.candidates@.len())
            &&& lines[3] == if health.transparent_enabled {
                "Full anonymization: RUNNING  (t to stop)"@
            } else {
                "Full anonymization: stopped  (t to start)"@
            }
        }),
{
    let t = text::decimal_text(health.socks_connections_total as nat);
    let a = text::decimal_text(health.socks_connections_active as nat);
    texts::decimals_read_back(health.socks_connections_total as nat);
    texts::decimals_read_back(health.socks_connections_active as nat);
    texts::writing_is_line(t, health.socks_connections_total as int);
    texts::writing_is_line(a, health.socks_connections_active as int);
    panel_words();
    reveal_strlit("\n");
    reveal_strlit(" active)");
    reveal_strlit(" active)\n");
    assert("\n"@ =~= seq!['\n']);
    assert(" active)\n"@ =~= " active)"@ + seq!['\n']);
    let l0 = "SOCKS5:    UP on "@ + socks_addr + "   ("@ + t + " connections total, "@ + a
        + " active)"@;
    let l1 = dashboard::dns_line(dns_addr);
    let l2 = dashboard::bridges_line(health.candidates@.len());
    let l3 = dashboard::full_anon_line(health.transparent_enabled);
    texts::lines_join("SOCKS5:    UP on "@, socks_addr);
    texts::lines_join("SOCKS5:    UP on "@ + socks_addr, "   ("@);
    texts::lines_join("SOCKS5:    UP on "@ + socks_addr + "   ("@, t);
    texts::lines_join("SOCKS5:    UP on "@ + socks_addr + "   ("@ + t, " connections total, "@);
    texts::lines_join(
        "SOCKS5:    UP on "@ + socks_addr + "   ("@ + t + " connections total, "@,
        a,
    );
    texts::lines_join(
        "SOCKS5:    UP on "@ + socks_addr + "   ("@ + t + " connections total, "@ + a,
        " active)"@,
    );
    if let Some(addr) = dns_addr {
        texts::lines_join("DNS shim:  UP on "@, addr);
        texts::lines_join("DNS shim:  UP on "@ + addr, "  (n to stop)"@);
    }
    let count = health.candidates@.len();
    let d = text::decimal_text(count);
    texts::decimals_read_back(count);
    texts::writing_is_line(d, count as int);
    texts::lines_join("Bridges:   "@, d);
    texts::lines_join("Bridges:   "@ + d, " configured \u{2014} see the candidates table below"@);
    let all = seq![l0, l1, l2, l3];
    assert(texts::all_lines(all));
    texts::lines_read_back(all);
    let nl = seq!['\n'];
    let whole = dashboard::services_panel(socks_addr, health, dns_addr) + nl;
    assert(whole =~= (l0 + nl) + (l1 + nl) + (l2 + nl) + (l3 + nl));
    texts::one_line(l0);
    texts::one_line(l1);
    texts::one_line(l2);
    texts::one_line(l3);
    texts::lined_joins(seq![l0], seq![l1]);
    texts::lined_joins(seq![l0] + seq![l1], seq![l2]);
    texts::lined_joins(seq![l0] + seq![l1] + seq![l2], seq![l3]);
    assert(seq![l0] + seq![l1] + seq![l2] + seq![l3] =~= all);
    (t, a)
}

proof fn panel_words()
    ensures
        texts::is_line("SOCKS5:    UP on "@),
        texts::is_line("   ("@),
        texts::is_line(" connections total, "@),
        texts::is_line(" active)"@),
        texts::is_line("DNS shim:  UP on "@),
        texts::is_line("  (n to stop)"@),
        texts::is_line("DNS shim:  not running  (n to start)"@),
        texts::is_line("Bridges:   "@),
        texts::is_line(" configured \u{2014} see the candidates table below"@),
        texts::is_line("Bridges:   none configured (running in direct mode, a to add one)"@),
        texts::is_line("Full anonymization: RUNNING  (t to stop)"@),
        texts::is_line("Full anonymization: stopped  (t to start)"@),
{
    reveal_strlit("SOCKS5:    UP on ");
    reveal_strlit("   (");
    reveal_strlit(" connections total, ");
    reveal_strlit(" active)");
    reveal_strlit("DNS shim:  UP on ");
    reveal_strlit("  (n to stop)");
    reveal_strlit("DNS shim:  not running  (n to start)");
    reveal_strlit("Bridges:   ");
    reveal_strlit(" configured \u{2014} see the candidates table below");
    reveal_strlit("Bridges:   none configured (running in direct mode, a to add one)");
    reveal_strlit("Full anonymization: RUNNING  (t to stop)");
    reveal_strlit("Full anonymization: stopped  (t to start)");
}

/// The row of a bridge: the place, marked by a star exactly if the bridge is the
/// active one; the line; whether the last check passed; how long it took.
pub proof fn candidate_cells_read_back(c: CandidateStatus, active: Option<usize>)
    ensures
        ({
            let cells = dashboard::candidate_cell_texts(c, active);
            &&& cells.len() == 4
            &&& cells[0].len() > 0
            &&& (cells[0][0] == '*') == (active == Some(c.index))
            &&& texts::writes(cells[0].skip(1), c.index as int)
            &&& cells[1] == c.line@
            &&& cells[2] == "ok"@ <==> c.last_success == Some(true)
            &&& cells[2] == "FAIL"@ <==> c.last_success == Some(false)
            &&& c.last_success is None ==> cells[2] == "-"@
            &&& match c.last_latency_ms {
                Some(ms) => texts::between(cells[3], seq![], "ms"@) matches Some(v)
                    && texts::writes(v, ms as int),
                None => cells[3] == "-"@,
            }
        }),
{
    reveal_strlit("*");
    reveal_strlit(" ");
    reveal_strlit("-");
    reveal_strlit("ok");
    reveal_strlit("FAIL");
    assert("-"@.len() == 1 && "ok"@.len() == 2 && "FAIL"@.len() == 4);
    let cells = dashboard::candidate_cell_texts(c, active);
    let d = text::decimal_text(c.index as nat);
    texts::decimals_read_back(c.index as nat);
    assert(cells[0].skip(1) =~= d);
    if let Some(ms) = c.last_latency_ms {
        let v = text::decimal_text(ms as nat);
        texts::decimals_read_back(ms as nat);
        texts::between_is_found(seq![], v, "ms"@);
        assert(seq![] + v + "ms"@ =~= cells[3]);
    }
}

/// The row of an isolation bucket: the identity, the uses, and the age in seconds.
pub proof fn isolation_cells_read_back(identity: Seq<char>, uses: nat, age_secs: nat)
    ensures
        ({
            let cells = dashboard::isolation_cell_texts(identity, uses, age_secs);
            &&& cells.len() == 3
            &&& cells[0] == identity
            &&& texts::writes(cells[1], uses as int)
            &&& texts::between(cells[2], seq![], "s"@) matches Some(v) && texts::writes(
                v,
                age_secs as int,
            )
        }),
{
    let v = text::decimal_text(age_secs);
    texts::decimals_read_back(uses);
    texts::decimals_read_back(age_secs);
    texts::between_is_found(seq![], v, "s"@);
    assert(seq![] + v + "s"@ =~= dashboard::isolation_cell_texts(identity, uses, age_secs)[2]);
}

/// The titles of the two tables say how many rows there are.
pub proof fn headings_read_back(count: nat)
    ensures
        texts::between(
            dashboard::candidates_heading(count),
            "Bridge candidates ("@,
            ", * = active)"@,
        ) matches Some(v) && texts::writes(v, count as int),
        texts::between(dashboard::isolation_heading(count), "Isolation buckets ("@, ")"@) matches Some(
            v,
        ) && texts::writes(v, count as int),
{
    let v = text::decimal_text(count);
    texts::decimals_read_back(count);
    texts::between_is_found("Bridge candidates ("@, v, ", * = active)"@);
    texts::between_is_found("Isolation buckets ("@, v, ")"@);
}

/// The kill switch panel tells the state of each switch.
pub proof fn switches_panel_reads_back(scoped: Option<bool>, radical: Option<bool>)
    ensures
        ({
            let panel = dashboard::switches_panel(scoped, radical);
            &&& scoped == Some(true) ==> texts::begins_with(panel, "scoped: ENABLED    "@)
            &&& scoped == Some(false) ==> texts::begins_with(panel, "scoped: disabled    "@)
            &&& scoped is None ==> texts::begins_with(panel, "scoped: unknown (needs root)    "@)
            &&& radical == Some(true) ==> texts::ends_with(panel, "    radical: ENABLED"@)
            &&& radical == Some(false) ==> texts::ends_with(panel, "    radical: disabled"@)
            &&& radical is None ==> texts::ends_with(panel, "    radical: unknown (needs root)"@)
        }),
{
    reveal_strlit("scoped: ");
    reveal_strlit("    radical: ");
    reveal_strlit("ENABLED");
    reveal_strlit("disabled");
    reveal_strlit("unknown (needs root)");
    reveal_strlit("scoped: ENABLED    ");
    reveal_strlit("scoped: disabled    ");
    reveal_strlit("scoped: unknown (needs root)    ");
    reveal_strlit("    radical: ENABLED");
    reveal_strlit("    radical: disabled");
    reveal_strlit("    radical: unknown (needs root)");
    let panel = dashboard::switches_panel(scoped, radical);
    let head = match scoped {
        Some(true) => "scoped: ENABLED    "@,
        Some(false) => "scoped: disabled    "@,
        None => "scoped: unknown (needs root)    "@,
    };
    let tail = match radical {
        Some(true) => "    radical: ENABLED"@,
        Some(false) => "    radical: disabled"@,
        None => "    radical: unknown (needs root)"@,
    };
    assert(panel.take(head.len() as int) =~= head);
    assert(panel.skip(panel.len() - tail.len()) =~= tail);
}

/// The tail of a log is what the log ends with: as many lines as were asked for,
/// or all there are.
pub proof fn tails_end_the_log(lines: Seq<Seq<char>>, n: nat)
    ensures
        ({
            let tail = dashboard::last_of(lines, n);
            &&& tail.len() <= n
            &&& tail.len() <= lines.len()
            &&& tail.len() == n || tail.len() == lines.len()
            &&& lines == lines.take(lines.len() - tail.len()) + tail
        }),
        dashboard::LOG_TAIL_LINES == 10,
{
    let tail = dashboard::last_of(lines, n);
    assert(lines =~= lines.take(lines.len() - tail.len()) + tail);
}

/// The sparkline has one value for each check, in order: how long it took if it
/// passed, else zero.
pub proof fn sparkline_follows_history(history: Seq<HealthSample>, i: int)
    requires
        0 <= i < history.len(),
    ensures
        dashboard::latencies(history).len() == history.len(),
        history[i].success ==> dashboard::latencies(history)[i] == history[i].latency_ms,
        !history[i].success ==> dashboard::latencies(history)[i] == 0,
{
}

/// What came of an action is said as it is: the message of success, or that of
/// failure and the error behind it.
pub proof fn outcomes_read_back(result: Result<(), String>, good: Seq<char>, bad: Seq<char>)
    ensures
        match result {
            Ok(_) => dashboard::outcome_text(result, good, bad) == good,
            Err(e) => texts::begins_with(dashboard::outcome_text(result, good, bad), bad)
                && dashboard::outcome_text(result, good, bad).skip(bad.len() as int) == e@,
        },
{
    if let Err(e) = result {
        texts::behind_is_found(bad, e@);
    }
}

/// The message on a confined user names the user.
pub proof fn confined_text_reads_back(uid: u32)
    ensures
        texts::between(
            dashboard::confined_text(uid),
            "scoped kill switch enabled, confining uid "@,
            " to loopback"@,
        ) matches Some(v) && texts::writes(v, uid as int),
{
    texts::decimals_read_back(uid as nat);
    texts::between_is_found(
        "scoped kill switch enabled, confining uid "@,
        text::decimal_text(uid as nat),
        " to loopback"@,
    );
}

/// The message on a text that is no address quotes it.
pub proof fn bad_address_reads_back(typed: Seq<char>)
    ensures
        texts::between(
            dashboard::bad_address_text(typed),
            "'"@,
            "' is not a valid address (expected host:port)"@,
        ) == Some(typed),
{
    texts::between_is_found("'"@, typed, "' is not a valid address (expected host:port)"@);
}

// ---------------------------------------------------------------------------
// The command line.
// ---------------------------------------------------------------------------
/// A switch that was asked to last a time lasts that time; of those that were not,
/// the radical one lasts five minutes and the scoped one for ever.
pub proof fn lifetimes_are_as_asked(mode: KsMode, asked: Option<u64>)
    ensures
        asked is Some ==> cli::lifetime(mode, asked) == asked,
        asked is None && mode == KsMode::Radical ==> cli::lifetime(mode, asked) == Some(300u64),
        asked is None && mode == KsMode::Scoped ==> cli::lifetime(mode, asked) is None,
{
}

/// A plan is about the switch that was asked for: the scoped one for the user that
/// was named, the radical one for the process's own; there is none exactly if that
/// user is not known.
pub proof fn plans_are_about_what_was_asked(
    mode: KsMode,
    protect_uid: Option<u32>,
    own_uid: Option<u32>,
)
    ensures
        mode == KsMode::Scoped ==> (cli::asked_switch(mode, protect_uid, own_uid) is Some
            <==> protect_uid is Some),
        mode == KsMode::Radical ==> (cli::asked_switch(mode, protect_uid, own_uid) is Some
            <==> own_uid is Some),
        cli::asked_switch(mode, protect_uid, own_uid) matches Some(KillSwitch::Scoped {
            protect_uid: uid,
        }) ==> mode == KsMode::Scoped && protect_uid == Some(uid),
        cli::asked_switch(mode, protect_uid, own_uid) matches Some(KillSwitch::Radical {
            anonet_uid: uid,
        }) ==> mode == KsMode::Radical && own_uid == Some(uid),
{
}

/// The client is bootstrapped through the bridge that was found; without a bridge
/// only if none is configured or none was found.
pub proof fn bootstraps_go_through_what_was_found(candidates: nat, found: Option<usize>)
    ensures
        cli::bootstrap_for(candidates, found) == Bootstrap::Direct <==> candidates == 0,
        cli::bootstrap_for(candidates, found) == Bootstrap::Fallback <==> candidates > 0
            && found is None,
        found matches Some(i) ==> candidates > 0 ==> cli::bootstrap_for(candidates, found)
            == Bootstrap::Through(i),
{
}

/// A log is moved away exactly if it has more bytes than it may.
pub proof fn logs_are_moved_when_too_large(len: u64, max_bytes: u64)
    ensures
        cli::is_too_large(Some(len), max_bytes) <==> len > max_bytes,
        !cli::is_too_large(None, max_bytes),
        cli::LOG_ROTATE_THRESHOLD_BYTES == 10 * 1024 * 1024,
{
}

/// What is printed once a switch is in force says for how long, or how to lift it.
pub proof fn enabled_text_reads_back(mode: KsMode, ttl_secs: Option<u64>)
    ensures
        match ttl_secs {
            Some(secs) => texts::between(
                cli::enabled_text(mode, ttl_secs),
                "Kill switch enabled for up to "@,
                "s (Ctrl+C disables it immediately)."@,
            ) matches Some(v) && texts::writes(v, secs as int),
            None => texts::between(
                cli::enabled_text(mode, ttl_secs),
                "Kill switch enabled with no TTL. Run `anonet killswitch disable --mode "@,
                "` to remove it."@,
            ) == Some(
                match mode {
                    KsMode::Scoped => "scoped"@,
                    KsMode::Radical => "radical"@,
                },
            ),
        },
{
    match ttl_secs {
        Some(secs) => {
            texts::decimals_read_back(secs as nat);
            texts::between_is_found(
                "Kill switch enabled for up to "@,
                text::decimal_text(secs as nat),
                "s (Ctrl+C disables it immediately)."@,
            );
        },
        None => {
            texts::between_is_found(
                "Kill switch enabled with no TTL. Run `anonet killswitch disable --mode "@,
                cli::mode_text(mode),
                "` to remove it."@,
            );
        },
    }
}

/// What is printed once a switch was lifted names the switch.
pub proof fn disabled_text_reads_back(mode: KsMode)
    ensures
        texts::between(cli::disabled_text(mode), "Kill switch ("@, ") disabled."@) == Some(
            match mode {
                KsMode::Scoped => "scoped"@,
                KsMode::Radical => "radical"@,
            },
        ),
{
    texts::between_is_found("Kill switch ("@, cli::mode_text(mode), ") disabled."@);
}

/// What is printed of the switches has one line for each, which tells its state.
pub proof fn switches_text_reads_back(scoped: bool, radical: bool)
    ensures
        text::lines_of(cli::switches_text(scoped, radical) + seq!['\n']) == seq![
            if scoped {
                "scoped:  ENABLED"@
            } else {
                "scoped:  disabled"@
            },
            if radical {
                "radical: ENABLED"@
            } else {
                "radical: disabled"@
            },
        ],
{
    reveal_strlit("ENABLED");
    reveal_strlit("disabled");
    reveal_strlit("scoped:  ");
    reveal_strlit("\nradical: ");
    reveal_strlit("scoped:  ENABLED");
    reveal_strlit("scoped:  disabled");
    reveal_strlit("radical: ENABLED");
    reveal_strlit("radical: disabled");
    let a = if scoped {
        "scoped:  ENABLED"@
    } else {
        "scoped:  disabled"@
    };
    let b = if radical {
        "radical: ENABLED"@
    } else {
        "radical: disabled"@
    };
    let nl = seq!['\n'];
    assert(texts::is_line(a));
    assert(texts::is_line(b));
    assert(cli::switches_text(scoped, radical) + nl =~= a + nl + (b + nl));
    texts::first_line(a, b + nl);
    texts::first_line(b, seq![]);
    assert(b + nl + seq![] =~= b + nl);
    assert(seq![a] + (seq![b] + seq![]) =~= seq![a, b]);
}

/// The progress of a bootstrap tells the seconds that have elapsed.
pub proof fn progress_reads_back(b: Bootstrap, secs: u64)
    ensures
        texts::between(
            cli::progress_text(b, Some(secs)),
            (match b {
                Bootstrap::Direct => "bootstrapping Tor"@,
                Bootstrap::Through(_) => "bootstrapping Tor via bridge"@,
                Bootstrap::Fallback => "bootstrapping Tor (direct fallback)"@,
            }) + "... still working ("@,
            "s elapsed)"@,
        ) matches Some(v) && texts::writes(v, secs as int),
{
    let head = cli::bootstrap_text(b) + "... still working ("@;
    let v = text::decimal_text(secs as nat);
    texts::decimals_read_back(secs as nat);
    texts::between_is_found(head, v, "s elapsed)"@);
    assert(head + v + "s elapsed)"@ =~= cli::progress_text(b, Some(secs)));
}

} // verus!
