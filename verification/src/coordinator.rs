//! Background health monitoring of the active bridge with failover, and live
//! addition of bridges.
//!
//! The coordinator decides; the caller sleeps, checks bridges and bootstraps
//! clients, and hands back what came of it. Every decision is also reported in
//! a [`HealthStatus`].
use crate::bridges::HealthResult;
use crate::telemetry::{self, HealthSample, HealthStatus};
use crate::text;
use vstd::prelude::*;
use vstd::string::*;

verus! {

/// What to do after a check of the active bridge.
#[derive(Debug, Clone, Copy, PartialEq, Eq, Structural)]
pub enum AfterCheck {
    /// Wait for the next check.
    Wait,
    /// Search all bridges for a replacement.
    Rescan,
}

/// What to do after a search.
#[derive(Debug, Clone, Copy, PartialEq, Eq, Structural)]
pub enum AfterScan {
    /// The active bridge was found healthy again: keep it.
    Keep,
    /// Bootstrap a client through the bridge at this place.
    Bootstrap(usize),
    /// No bridge is healthy: keep the active one.
    NoneHealthy,
}

/// The coordinator's own state.
#[derive(Debug)]
pub struct BridgeCoordinator {
    /// The active bridge; `None` in direct mode.
    pub active: Option<usize>,
    /// Failed checks in a row.
    pub failures: u32,
    /// How many failed checks in a row set off a search.
    pub failure_threshold: u32,
}

// ---------------------------------------------------------------------------
// What events do.
// ---------------------------------------------------------------------------
/// Which bridge is active, and how many of its checks failed in a row.
pub struct Standing {
    /// The active bridge; `None` in direct mode.
    pub active: Option<usize>,
    /// Failed checks in a row.
    pub failures: nat,
}

/// Something that happens to bridges.
pub enum Event {
    /// The active bridge was checked.
    Checked { success: bool },
    /// A search for a replacement of the bridge at `checked` has ended.
    Searched { checked: usize, found: Option<usize> },
    /// A client was to be bootstrapped through a bridge that a search found.
    Switched { idx: usize, bootstrapped: bool },
    /// A client was bootstrapped through a new bridge.
    Added { idx: usize },
}

/// Whether an event begins a new count of failures: a check that passed, a
/// search that found the active bridge healthy again, or a bridge that became
/// the active one.
pub open spec fn is_fresh_start(e: Event) -> bool {
    match e {
        Event::Checked { success } => success,
        Event::Searched { checked, found } => found == Some(checked),
        Event::Switched { bootstrapped, .. } => bootstrapped,
        Event::Added { .. } => true,
    }
}

/// Whether an event is a failed check.
pub open spec fn is_failed_check(e: Event) -> bool {
    e matches Event::Checked { success } && !success
}

/// The bridge that an event makes the active one, if any.
pub open spec fn made_active(e: Event) -> Option<usize> {
    match e {
        Event::Switched { idx, bootstrapped } => if bootstrapped {
            Some(idx)
        } else {
            None
        },
        Event::Added { idx } => Some(idx),
        _ => None,
    }
}

/// What an event does.
pub open spec fn standing_after(st: Standing, e: Event) -> Standing {
    Standing {
        active: if made_active(e) is Some {
            made_active(e)
        } else {
            st.active
        },
        failures: if is_fresh_start(e) {
            0
        } else if is_failed_check(e) {
            st.failures + 1
        } else {
            st.failures
        },
    }
}

/// What a check leads to, from the failures in a row after it.
pub open spec fn check_leads_to(failures: nat, threshold: nat) -> AfterCheck {
    if failures > 0 && failures >= threshold {
        AfterCheck::Rescan
    } else {
        AfterCheck::Wait
    }
}

/// What the end of a search leads to.
pub open spec fn scan_leads_to(checked: usize, found: Option<usize>) -> AfterScan {
    match found {
        Some(i) => if i == checked {
            AfterScan::Keep
        } else {
            AfterScan::Bootstrap(i)
        },
        None => AfterScan::NoneHealthy,
    }
}

/// The latency that is recorded of a result.
pub open spec fn recorded_latency(result: HealthResult) -> u64 {
    result.latency.whole_millis() as u64
}

/// The health status once the active bridge, which is at `idx`, was checked.
pub open spec fn check_reported(
    before: HealthStatus,
    after: HealthStatus,
    idx: usize,
    result: HealthResult,
    failures: u32,
    now: u128,
) -> bool {
    let latency_ms = recorded_latency(result);
    &&& after.rows() == telemetry::recorded(
        before.rows(),
        idx as nat,
        result.candidate_line@,
        result.success,
        latency_ms,
    )
    &&& after.history@ == before.history@.push(
        HealthSample { at: now, success: result.success, latency_ms },
    )
    &&& after == (HealthStatus {
        candidates: after.candidates,
        history: after.history,
        last_check_at: Some(now),
        consecutive_failures: failures,
        ..before
    })
}

/// The health status once a bridge was checked that is not the active one.
pub open spec fn result_reported(
    before: HealthStatus,
    after: HealthStatus,
    idx: usize,
    result: HealthResult,
) -> bool {
    &&& after.rows() == telemetry::recorded(
        before.rows(),
        idx as nat,
        result.candidate_line@,
        result.success,
        recorded_latency(result),
    )
    &&& after == (HealthStatus { candidates: after.candidates, ..before })
}

/// The health status once a search has ended that found the active bridge healthy
/// again or not.
pub open spec fn search_reported(before: HealthStatus, healthy_again: bool) -> HealthStatus {
    if healthy_again {
        HealthStatus { consecutive_failures: 0, ..before }
    } else {
        before
    }
}

/// The health status once the bridge at `idx` became the active one.
pub open spec fn activated(
    before: HealthStatus,
    after: HealthStatus,
    idx: usize,
    line: Option<Seq<char>>,
    now: u128,
) -> bool {
    &&& text::opt_text(after.active_bridge_line) == line
    &&& after == (HealthStatus {
        active_bridge_index: Some(idx),
        active_bridge_line: after.active_bridge_line,
        last_switch_at: Some(now),
        total_switches: (before.total_switches + 1) as u64,
        consecutive_failures: 0,
        ..before
    })
}

/// The health status once an error was reported.
pub open spec fn reported(
    before: HealthStatus,
    after: HealthStatus,
    error: Seq<char>,
    now: u128,
) -> bool {
    &&& after.last_error matches Some(r) && r.at == now && r.message@ == error
    &&& after == (HealthStatus { last_error: after.last_error, ..before })
}

pub(crate) fn activate(status: &mut HealthStatus, idx: usize, line: Option<String>, now: u128)
    requires
        old(status).total_switches < u64::MAX,
    ensures
        activated(*old(status), *final(status), idx, text::opt_text(line), now),
{
    status.active_bridge_index = Some(idx);
    status.active_bridge_line = line;
    status.last_switch_at = Some(now);
    status.total_switches = status.total_switches + 1;
    status.consecutive_failures = 0;
}

impl BridgeCoordinator {
    /// Which bridge is active, and how many of its checks failed in a row.
    pub open spec fn standing(self) -> Standing {
        Standing { active: self.active, failures: self.failures as nat }
    }

    /// Whether a health status reports the active bridge.
    pub open spec fn reported_in(self, status: HealthStatus) -> bool {
        status.active_bridge_index == self.active
    }

    /// Begins with the bridge that startup settled on, if any, whose line is
    /// `line`.
    pub fn new(
        status: &mut HealthStatus,
        initial: Option<usize>,
        line: Option<String>,
        failure_threshold: u32,
    ) -> (c: Self)
        ensures
            c.standing() == (Standing { active: initial, failures: 0 }),
            c.failure_threshold == failure_threshold,
            old(status).active_bridge_index is None ==> c.reported_in(*final(status)),
            initial is None ==> *final(status) == *old(status),
            initial is Some ==> text::opt_text(final(status).active_bridge_line)
                == text::opt_text(line) && *final(status) == (HealthStatus {
                active_bridge_index: initial,
                active_bridge_line: final(status).active_bridge_line,
                ..*old(status)
            }),
    {
        if initial.is_some() {
            status.active_bridge_index = initial;
            status.active_bridge_line = line;
        }
        BridgeCoordinator { active: initial, failures: 0, failure_threshold }
    }

    /// The bridge to check on waking up; in direct mode there is none.
    pub fn on_wake(&self) -> (idx: Option<usize>)
        ensures
            idx == self.active,
    {
        self.active
    }

    /// The active bridge at `idx` was checked.
    pub fn on_check(
        &mut self,
        status: &mut HealthStatus,
        idx: usize,
        result: &HealthResult,
        now: u128,
    ) -> (next: AfterCheck)
        requires
            old(self).failures < u32::MAX,
        ensures
            final(self).standing() == standing_after(
                old(self).standing(),
                Event::Checked { success: result.success },
            ),
            final(self).failure_threshold == old(self).failure_threshold,
            next == check_leads_to(
                final(self).standing().failures,
                old(self).failure_threshold as nat,
            ),
            check_reported(*old(status), *final(status), idx, *result, final(self).failures, now),
            old(self).reported_in(*old(status)) ==> final(self).reported_in(*final(status)),
            old(status).well_formed() ==> final(status).well_formed(),
    {
        let latency_ms: u64 = result.latency.millis() as u64;
        status.last_check_at = Some(now);
        status.push_sample(HealthSample { at: now, success: result.success, latency_ms });
        status.record_candidate_result(
            idx,
            result.candidate_line.as_str(),
            result.success,
            latency_ms,
        );
        if result.success {
            self.failures = 0;
        } else {
            self.failures = self.failures + 1;
        }
        status.consecutive_failures = self.failures;
        if !result.success && self.failures >= self.failure_threshold {
            AfterCheck::Rescan
        } else {
            AfterCheck::Wait
        }
    }

    /// A bridge was checked in the course of a search.
    pub fn on_scan_result(&self, status: &mut HealthStatus, idx: usize, result: &HealthResult)
        ensures
            result_reported(*old(status), *final(status), idx, *result),
            old(status).well_formed() ==> final(status).well_formed(),
    {
        status.record_candidate_result(
            idx,
            result.candidate_line.as_str(),
            result.success,
            result.latency.millis() as u64,
        );
    }

    /// A search for a replacement of the bridge at `checked` is over.
    pub fn on_scan_end(
        &mut self,
        status: &mut HealthStatus,
        checked: usize,
        found: Option<usize>,
    ) -> (next: AfterScan)
        ensures
            next == scan_leads_to(checked, found),
            final(self).standing() == standing_after(
                old(self).standing(),
                Event::Searched { checked, found },
            ),
            final(self).failure_threshold == old(self).failure_threshold,
            *final(status) == search_reported(*old(status), next == AfterScan::Keep),
            old(self).reported_in(*old(status)) ==> final(self).reported_in(*final(status)),
    {
        match found {
            Some(i) => {
                if i == checked {
                    status.consecutive_failures = 0;
                    self.failures = 0;
                    AfterScan::Keep
                } else {
                    AfterScan::Bootstrap(i)
                }
            },
            None => AfterScan::NoneHealthy,
        }
    }

    /// A client was bootstrapped through the bridge at `idx`, found by a
    /// search, or could not be.
    pub fn on_failover(
        &mut self,
        status: &mut HealthStatus,
        idx: usize,
        line: Option<String>,
        bootstrapped: bool,
        now: u128,
    )
        requires
            old(status).total_switches < u64::MAX,
        ensures
            final(self).standing() == standing_after(
                old(self).standing(),
                Event::Switched { idx, bootstrapped },
            ),
            final(self).failure_threshold == old(self).failure_threshold,
            bootstrapped ==> activated(
                *old(status),
                *final(status),
                idx,
                text::opt_text(line),
                now,
            ),
            !bootstrapped ==> *final(status) == *old(status),
            old(self).reported_in(*old(status)) ==> final(self).reported_in(*final(status)),
    {
        if bootstrapped {
            self.active = Some(idx);
            self.failures = 0;
            activate(status, idx, line, now);
        }
    }

    /// Someone asks for a new bridge: the last error no longer counts.
    pub fn on_add_requested(&self, status: &mut HealthStatus)
        ensures
            *final(status) == (HealthStatus { last_error: None, ..*old(status) }),
    {
        status.clear_error();
    }

    /// The new bridge's line was refused.
    pub fn on_add_refused(&self, status: &mut HealthStatus, error: &str, now: u128)
        ensures
            reported(*old(status), *final(status), error@, now),
    {
        status.record_error(now, error.to_owned());
    }

    /// The new bridge was checked. `Ok` if a client is to be bootstrapped
    /// through it.
    pub fn on_added_check(
        &self,
        status: &mut HealthStatus,
        idx: usize,
        result: &HealthResult,
        now: u128,
    ) -> (res: Result<(), String>)
        ensures
            res is Ok <==> result.success,
            res matches Err(e) ==> e@ == new_bridge_error(*result) && (
            final(status).last_error matches Some(r) && r.at == now && r.message@ == e@),
            res is Ok ==> final(status).last_error == old(status).last_error,
            result_reported(
                *old(status),
                HealthStatus { last_error: old(status).last_error, ..*final(status) },
                idx,
                *result,
            ),
            old(status).well_formed() ==> final(status).well_formed(),
    {
        status.record_candidate_result(
            idx,
            result.candidate_line.as_str(),
            result.success,
            result.latency.millis() as u64,
        );
        if result.success {
            Ok(())
        } else {
            let mut message = "new bridge failed its health check: ".to_owned();
            match &result.error {
                Some(e) => {
                    message.append(e.as_str());
                },
                None => {
                    message.append("unknown error");
                },
            }
            status.record_error(now, message.clone());
            Err(message)
        }
    }

    /// The new bridge passed its check, but no client could be configured or
    /// bootstrapped through it.
    pub fn on_add_failed(&self, status: &mut HealthStatus, error: &str, now: u128)
        ensures
            reported(*old(status), *final(status), error@, now),
    {
        status.record_error(now, error.to_owned());
    }

    /// A client was bootstrapped through the new bridge: it is the active one,
    /// exactly as after a failover.
    pub fn on_added(
        &mut self,
        status: &mut HealthStatus,
        idx: usize,
        line: Option<String>,
        now: u128,
    )
        requires
            old(status).total_switches < u64::MAX,
        ensures
            final(self).standing() == standing_after(old(self).standing(), Event::Added { idx }),
            final(self).failure_threshold == old(self).failure_threshold,
            activated(*old(status), *final(status), idx, text::opt_text(line), now),
            final(self).reported_in(*final(status)),
    {
        self.active = Some(idx);
        self.failures = 0;
        activate(status, idx, line, now);
    }
}

/// The message on a new bridge that failed its check.
pub open spec fn new_bridge_error(result: HealthResult) -> Seq<char> {
    "new bridge failed its health check: "@ + (match result.error {
        Some(e) => e@,
        None => "unknown error"@,
    })
}

// ---------------------------------------------------------------------------
// Laws.
// ---------------------------------------------------------------------------
/// The standing after a series of events.
pub open spec fn standing_after_all(st: Standing, events: Seq<Event>) -> Standing
    decreases events.len(),
{
    if events.len() == 0 {
        st
    } else {
        standing_after(standing_after_all(st, events.drop_last()), events.last())
    }
}

/// How many of the events from `start` on are failed checks.
pub open spec fn failed_checks(events: Seq<Event>, start: int) -> nat
    decreases events.len() - start,
{
    if start < 0 || start >= events.len() {
        0
    } else {
        failed_checks(events.drop_last(), start) + if is_failed_check(events.last()) {
            1nat
        } else {
            0nat
        }
    }
}

/// Whether `start` is where the current count of failures begins: right behind
/// the last fresh start, or at the beginning if there was none.
pub open spec fn counts_from(events: Seq<Event>, start: int) -> bool {
    &&& 0 <= start <= events.len()
    &&& start > 0 ==> is_fresh_start(events[start - 1])
    &&& forall|i: int| start <= i < events.len() ==> !is_fresh_start(#[trigger] events[i])
}

/// The failures in a row that are counted are the failed checks since the last
/// check that passed, the last search that succeeded, or the last change of the
/// active bridge.
pub proof fn counter_counts_since_fresh_start(st: Standing, events: Seq<Event>, start: int)
    requires
        st.failures == 0,
        counts_from(events, start),
    ensures
        standing_after_all(st, events).failures == failed_checks(events, start),
    decreases events.len(),
{
    if events.len() > 0 {
        let before = events.drop_last();
        if start < events.len() {
            assert forall|i: int| start <= i < before.len() implies !is_fresh_start(
                #[trigger] before[i],
            ) by {
                assert(before[i] == events[i]);
            }
            if start > 0 {
                assert(before[start - 1] == events[start - 1]);
            }
            counter_counts_since_fresh_start(st, before, start);
            assert(!is_fresh_start(events[events.len() - 1]));
        }
    }
}

/// After a check, a search for a replacement is made exactly if the check
/// failed and is at least the `threshold`-th failure since the last success,
/// the last successful search or the last change of the active bridge.
pub proof fn search_exactly_at_threshold(
    st: Standing,
    events: Seq<Event>,
    start: int,
    threshold: nat,
)
    requires
        st.failures == 0,
        counts_from(events, start),
        events.len() > 0,
        events.last() is Checked,
    ensures
        check_leads_to(standing_after_all(st, events).failures, threshold) == AfterCheck::Rescan
            <==> is_failed_check(events.last()) && failed_checks(events, start) >= threshold,
{
    counter_counts_since_fresh_start(st, events, start);
    if is_failed_check(events.last()) {
        assert(start < events.len()) by {
            if start == events.len() {
                assert(is_fresh_start(events[start - 1]));
            }
        }
    } else {
        assert(is_fresh_start(events[events.len() - 1]));
        assert(start == events.len());
    }
}

/// Checks and searches leave the active bridge as it is: it changes only when a
/// client was bootstrapped through another one, and then to that one.
pub proof fn active_changes_only_by_bootstrap(st: Standing, e: Event)
    ensures
        standing_after(st, e).active == match e {
            Event::Checked { .. } => st.active,
            Event::Searched { .. } => st.active,
            Event::Switched { idx, bootstrapped } => if bootstrapped {
                Some(idx)
            } else {
                st.active
            },
            Event::Added { idx } => Some(idx),
        },
{
}

/// A bridge that is added live stands exactly as one that a failover switched
/// to.
pub proof fn live_addition_is_a_failover(st: Standing, idx: usize)
    ensures
        standing_after(st, Event::Added { idx }) == standing_after(
            st,
            Event::Switched { idx, bootstrapped: true },
        ),
{
}

} // verus!
