//! Background health monitoring of the active bridge with failover, where a
//! bridge is always active.
//!
//! The monitor decides; the caller sleeps, checks bridges and bootstraps
//! clients, and hands back what came of it.
use crate::bridges::HealthResult;
use crate::coordinator::{self, AfterCheck, AfterScan, Event, Standing};
use crate::telemetry::HealthStatus;
use crate::text;
use vstd::prelude::*;

verus! {

/// The monitor's own state.
#[derive(Debug)]
pub struct BridgeMonitor {
    /// The active bridge.
    pub active: usize,
    /// Failed checks in a row.
    pub failures: u32,
    /// How many failed checks in a row set off a search.
    pub failure_threshold: u32,
}

/// The health status once the active bridge was checked.
pub open spec fn checked(before: HealthStatus, failures: u32, now: u128) -> HealthStatus {
    HealthStatus { last_check_at: Some(now), consecutive_failures: failures, ..before }
}

impl BridgeMonitor {
    /// Which bridge is active, and how many of its checks failed in a row.
    pub open spec fn standing(self) -> Standing {
        Standing { active: Some(self.active), failures: self.failures as nat }
    }

    /// Begins with the bridge at `initial`, whose line is `line`.
    pub fn new(
        status: &mut HealthStatus,
        initial: usize,
        line: Option<String>,
        failure_threshold: u32,
    ) -> (m: Self)
        ensures
            m.active == initial,
            m.failures == 0,
            m.failure_threshold == failure_threshold,
            text::opt_text(final(status).active_bridge_line) == text::opt_text(line),
            *final(status) == (HealthStatus {
                active_bridge_index: Some(initial),
                active_bridge_line: final(status).active_bridge_line,
                ..*old(status)
            }),
    {
        status.active_bridge_index = Some(initial);
        status.active_bridge_line = line;
        BridgeMonitor { active: initial, failures: 0, failure_threshold }
    }

    /// The active bridge was checked.
    pub fn on_check(
        &mut self,
        status: &mut HealthStatus,
        result: &HealthResult,
        now: u128,
    ) -> (next: AfterCheck)
        requires
            old(self).failures < u32::MAX,
        ensures
            final(self).standing() == coordinator::standing_after(
                old(self).standing(),
                Event::Checked { success: result.success },
            ),
            final(self).failure_threshold == old(self).failure_threshold,
            next == coordinator::check_leads_to(
                final(self).standing().failures,
                old(self).failure_threshold as nat,
            ),
            *final(status) == checked(*old(status), final(self).failures, now),
    {
        status.last_check_at = Some(now);
        if result.success {
            self.failures = 0;
        } else {
            self.failures = self.failures + 1;
        }
        status.consecutive_failures = self.failures;
        if !result.success && self.failures >= self.failure_threshold {
            AfterCheck::Rescan
        } else {
            AfterCheck::Wait
        }
    }

    /// A search for a replacement is over.
    pub fn on_scan_end(&mut self, status: &mut HealthStatus, found: Option<usize>) -> (next:
        AfterScan)
        ensures
            next == coordinator::scan_leads_to(old(self).active, found),
            final(self).standing() == coordinator::standing_after(
                old(self).standing(),
                Event::Searched { checked: old(self).active, found },
            ),
            final(self).failure_threshold == old(self).failure_threshold,
            *final(status) == coordinator::search_reported(*old(status), next == AfterScan::Keep),
    {
        match found {
            Some(i) => {
                if i == self.active {
                    self.failures = 0;
                    status.consecutive_failures = 0;
                    AfterScan::Keep
                } else {
                    AfterScan::Bootstrap(i)
                }
            },
            None => AfterScan::NoneHealthy,
        }
    }

    /// A client was bootstrapped through the bridge at `idx`, or could not be.
    pub fn on_failover(
        &mut self,
        status: &mut HealthStatus,
        idx: usize,
        line: Option<String>,
        bootstrapped: bool,
        now: u128,
    )
        requires
            old(status).total_switches < u64::MAX,
        ensures
            final(self).standing() == coordinator::standing_after(
                old(self).standing(),
                Event::Switched { idx, bootstrapped },
            ),
            final(self).failure_threshold == old(self).failure_threshold,
            bootstrapped ==> coordinator::activated(
                *old(status),
                *final(status),
                idx,
                text::opt_text(line),
                now,
            ),
            !bootstrapped ==> *final(status) == *old(status),
    {
        if bootstrapped {
            self.active = idx;
            self.failures = 0;
            coordinator::activate(status, idx, line, now);
        }
    }
}

} // verus!
