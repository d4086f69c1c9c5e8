//! What `anonet status` reports of a running instance.
use crate::telemetry::HealthStatus;
use crate::text;
use vstd::prelude::*;
use vstd::string::*;

verus! {

/// The report.
pub open spec fn status_text(
    socks_addr: Seq<char>,
    health: HealthStatus,
    dns_addr: Option<Seq<char>>,
) -> Seq<char> {
    "socks_listening: "@ + socks_addr + "\nsocks_connections_active: "@ + text::decimal_text(
        health.socks_connections_active as nat,
    ) + "\nsocks_connections_total: "@ + text::decimal_text(health.socks_connections_total as nat)
        + "\ndns_shim: "@ + (match dns_addr {
        Some(a) => a,
        None => "stopped"@,
    }) + "\nactive_bridge: "@ + (match health.active_bridge_line {
        Some(line) => line@,
        None => "none (direct connection)"@,
    }) + "\nbridge_candidates: "@ + text::decimal_text(health.candidates@.len())
        + "\nconsecutive_failures: "@ + text::decimal_text(health.consecutive_failures as nat)
        + "\ntotal_bridge_switches: "@ + text::decimal_text(health.total_switches as nat)
        + "\nfull_anonymization: "@ + (if health.transparent_enabled {
        "running"@
    } else {
        "stopped"@
    }) + "\nlast_error: "@ + (match health.last_error {
        Some(r) => r.message@,
        None => "none"@,
    }) + "\n"@
}

/// The report: one line for each thing that can be asked of an instance.
pub fn format_status(
    socks_addr: &str,
    health: &HealthStatus,
    dns_addr: &Option<String>,
) -> (s: String)
    ensures
        s@ == status_text(socks_addr@, *health, text::opt_text(*dns_addr)),
{
    let mut s = "socks_listening: ".to_owned();
    s.append(socks_addr);
    s.append("\nsocks_connections_active: ");
    s.append(text::decimal(health.socks_connections_active as u128).as_str());
    s.append("\nsocks_connections_total: ");
    s.append(text::decimal(health.socks_connections_total as u128).as_str());
    s.append("\ndns_shim: ");
    match dns_addr {
        Some(a) => {
            s.append(a.as_str());
        },
        None => {
            s.append("stopped");
        },
    }
    s.append("\nactive_bridge: ");
    match &health.active_bridge_line {
        Some(line) => {
            s.append(line.as_str());
        },
        None => {
            s.append("none (direct connection)");
        },
    }
    s.append("\nbridge_candidates: ");
    s.append(text::decimal(health.candidates.len() as u128).as_str());
    s.append("\nconsecutive_failures: ");
    s.append(text::decimal(health.consecutive_failures as u128).as_str());
    s.append("\ntotal_bridge_switches: ");
    s.append(text::decimal(health.total_switches as u128).as_str());
    s.append("\nfull_anonymization: ");
    if health.transparent_enabled {
        s.append("running");
    } else {
        s.append("stopped");
    }
    s.append("\nlast_error: ");
    match &health.last_error {
        Some(r) => {
            s.append(r.message.as_str());
        },
        None => {
            s.append("none");
        },
    }
    s.append("\n");
    s
}

} // verus!
