//! Live health state: what the health monitor and the servers report, and
//! what the dashboard and the status endpoint show.
//!
//! Times are in nanoseconds since the Unix epoch.
use vstd::prelude::*;

verus! {

/// The outcome of one health check of the active bridge.
#[derive(Debug, Clone, Copy)]
pub struct HealthSample {
    /// When.
    pub at: u128,
    /// Whether it passed.
    pub success: bool,
    /// How long it took.
    pub latency_ms: u64,
}

/// The last known status of a configured bridge.
#[derive(Debug)]
pub struct CandidateStatus {
    /// Its place in the failover order.
    pub index: usize,
    /// Its bridge line.
    pub line: String,
    /// Whether its last check passed, if it was ever checked.
    pub last_success: Option<bool>,
    /// How long its last check took, if it was ever checked.
    pub last_latency_ms: Option<u64>,
}

/// A connection that the supervised `tor` reported.
#[derive(Debug)]
pub struct StreamEvent {
    /// When.
    pub at: u128,
    /// What happened to it.
    pub status: String,
    /// Where it goes.
    pub target: String,
}

/// An error that is shown until the next relevant retry clears it.
#[derive(Debug)]
pub struct ErrorReport {
    /// When.
    pub at: u128,
    /// What went wrong.
    pub message: String,
}

/// The health state.
#[derive(Debug)]
pub struct HealthStatus {
    /// The active bridge's place in the failover order.
    pub active_bridge_index: Option<usize>,
    /// The active bridge's line.
    pub active_bridge_line: Option<String>,
    /// When the active bridge was last checked.
    pub last_check_at: Option<u128>,
    /// When the active bridge last changed.
    pub last_switch_at: Option<u128>,
    /// Failed checks of the active bridge in a row.
    pub consecutive_failures: u32,
    /// How often the active bridge changed.
    pub total_switches: u64,
    /// The checks of the active bridge, oldest first.
    pub history: Vec<HealthSample>,
    /// Every configured bridge.
    pub candidates: Vec<CandidateStatus>,
    /// SOCKS connections so far.
    pub socks_connections_total: u64,
    /// SOCKS connections now.
    pub socks_connections_active: u64,
    /// Whether full anonymization is in force.
    pub transparent_enabled: bool,
    /// The last error, unless it was cleared.
    pub last_error: Option<ErrorReport>,
    /// The connections that the supervised `tor` reported, oldest first.
    pub stream_events: Vec<StreamEvent>,
}

/// A [`CandidateStatus`] as a mathematical value.
pub struct Row {
    /// Its place in the failover order.
    pub index: nat,
    /// Its bridge line.
    pub line: Seq<char>,
    /// Whether its last check passed.
    pub last_success: Option<bool>,
    /// How long its last check took.
    pub last_latency_ms: Option<u64>,
}

impl CandidateStatus {
    /// The mathematical value.
    pub open spec fn row(self) -> Row {
        Row {
            index: self.index as nat,
            line: self.line@,
            last_success: self.last_success,
            last_latency_ms: self.last_latency_ms,
        }
    }
}

/// The rows of a list.
pub open spec fn rows_of(list: Seq<CandidateStatus>) -> Seq<Row> {
    list.map_values(|c: CandidateStatus| c.row())
}

/// The first row for a bridge, or the number of rows if there is none.
pub open spec fn find_row(rows: Seq<Row>, index: nat) -> nat
    decreases rows.len(),
{
    if rows.len() == 0 || rows[0].index == index {
        0
    } else {
        1 + find_row(rows.drop_first(), index)
    }
}

/// The rows once a bridge's check gave a result: its row is replaced, or one
/// is added.
pub open spec fn recorded(
    rows: Seq<Row>,
    index: nat,
    line: Seq<char>,
    success: bool,
    latency_ms: u64,
) -> Seq<Row> {
    let row = Row { index, line, last_success: Some(success), last_latency_ms: Some(latency_ms) };
    let at = find_row(rows, index);
    if at < rows.len() {
        rows.update(at as int, row)
    } else {
        rows.push(row)
    }
}

/// Whether no two rows are of the same bridge.
pub open spec fn distinct_rows(rows: Seq<Row>) -> bool {
    forall|i: int, j: int| 0 <= i < j < rows.len() ==> rows[i].index != rows[j].index
}

/// The rows of bridges that were never checked.
pub open spec fn unchecked_rows(candidates: Seq<(usize, String)>) -> Seq<Row> {
    candidates.map_values(
        |c: (usize, String)|
            (Row {
                index: c.0 as nat,
                line: c.1@,
                last_success: None,
                last_latency_ms: None,
            }),
    )
}

/// The first row for a bridge, if there is one, is of that bridge, and none before
/// it is.
pub proof fn find_row_bounds(rows: Seq<Row>, index: nat)
    ensures
        find_row(rows, index) <= rows.len(),
        find_row(rows, index) < rows.len() ==> rows[find_row(rows, index) as int].index == index,
        forall|i: int| 0 <= i < find_row(rows, index) ==> rows[i].index != index,
    decreases rows.len(),
{
    if rows.len() > 0 && rows[0].index != index {
        find_row_bounds(rows.drop_first(), index);
        let n = find_row(rows.drop_first(), index);
        assert forall|i: int| 0 <= i < n + 1 implies rows[i].index != index by {
            if i > 0 {
                assert(rows.drop_first()[i - 1] == rows[i]);
            }
        }
    }
}

/// Recording a result keeps at most one row for each bridge.
pub proof fn recording_keeps_rows_distinct(
    rows: Seq<Row>,
    index: nat,
    line: Seq<char>,
    success: bool,
    latency_ms: u64,
)
    requires
        distinct_rows(rows),
    ensures
        distinct_rows(recorded(rows, index, line, success, latency_ms)),
{
    find_row_bounds(rows, index);
}

/// A recorded result is the one that is found, and every other bridge's row
/// is as it was.
pub proof fn recorded_result_is_found(
    rows: Seq<Row>,
    index: nat,
    line: Seq<char>,
    success: bool,
    latency_ms: u64,
)
    ensures
        ({
            let after = recorded(rows, index, line, success, latency_ms);
            let at = find_row(rows, index) as int;
            &&& at < after.len()
            &&& after[at] == (Row {
                index,
                line,
                last_success: Some(success),
                last_latency_ms: Some(latency_ms),
            })
            &&& forall|i: int| 0 <= i < rows.len() && i != at ==> after[i] == rows[i]
        }),
{
    find_row_bounds(rows, index);
}

/// The health status once a SOCKS connection began.
pub open spec fn opened(s: HealthStatus) -> HealthStatus {
    HealthStatus {
        socks_connections_total: (s.socks_connections_total + 1) as u64,
        socks_connections_active: (s.socks_connections_active + 1) as u64,
        ..s
    }
}

/// The health status once a SOCKS connection ended.
pub open spec fn closed_one(s: HealthStatus) -> HealthStatus {
    HealthStatus { socks_connections_active: (s.socks_connections_active - 1) as u64, ..s }
}

impl HealthStatus {
    /// The rows of the configured bridges.
    pub open spec fn rows(self) -> Seq<Row> {
        rows_of(self.candidates@)
    }

    /// Whether there is at most one row for each bridge.
    pub open spec fn well_formed(self) -> bool {
        distinct_rows(self.rows())
    }

    /// Adds a check of the active bridge to the history.
    pub fn push_sample(&mut self, sample: HealthSample)
        ensures
            final(self).history@ == old(self).history@.push(sample),
            *final(self) == (HealthStatus { history: final(self).history, ..*old(self) }),
    {
        self.history.push(sample);
    }

    /// Records the result of checking a bridge.
    pub fn record_candidate_result(
        &mut self,
        index: usize,
        line: &str,
        success: bool,
        latency_ms: u64,
    )
        ensures
            final(self).rows() == recorded(
                old(self).rows(),
                index as nat,
                line@,
                success,
                latency_ms,
            ),
            *final(self) == (HealthStatus { candidates: final(self).candidates, ..*old(self) }),
            old(self).well_formed() ==> final(self).well_formed(),
    {
        let ghost before = self.rows();
        proof {
            find_row_bounds(before, index as nat);
            if distinct_rows(before) {
                recording_keeps_rows_distinct(before, index as nat, line@, success, latency_ms);
            }
        }
        let at = row_position(&self.candidates, index);
        let row = CandidateStatus {
            index,
            line: line.to_owned(),
            last_success: Some(success),
            last_latency_ms: Some(latency_ms),
        };
        if at < self.candidates.len() {
            self.candidates.set(at, row);
        } else {
            self.candidates.push(row);
        }
        assert(self.rows() == recorded(before, index as nat, line@, success, latency_ms));
    }

    /// Replaces the rows by those of bridges that were never checked.
    pub fn seed_candidates(&mut self, candidates: &Vec<(usize, String)>)
        ensures
            final(self).rows() == unchecked_rows(candidates@),
            *final(self) == (HealthStatus { candidates: final(self).candidates, ..*old(self) }),
    {
        let mut rows: Vec<CandidateStatus> = Vec::new();
        let mut i: usize = 0;
        while i < candidates.len()
            invariant
                i <= candidates@.len(),
                rows_of(rows@) == unchecked_rows(candidates@.take(i as int)),
            decreases candidates@.len() - i,
        {
            let ghost before = rows@;
            let row = CandidateStatus {
                index: candidates[i].0,
                line: candidates[i].1.clone(),
                last_success: None,
                last_latency_ms: None,
            };
            rows.push(row);
            proof {
                assert(candidates@.take(i + 1) == candidates@.take(i as int).push(
                    candidates@[i as int],
                ));
                assert(rows_of(rows@) == rows_of(before).push(row.row()));
                assert(unchecked_rows(candidates@.take(i + 1)) == unchecked_rows(
                    candidates@.take(i as int),
                ).push(row.row()));
            }
            i = i + 1;
        }
        assert(candidates@.take(i as int) == candidates@);
        self.candidates = rows;
    }

    /// Reports an error.
    pub fn record_error(&mut self, at: u128, message: String)
        ensures
            *final(self) == (HealthStatus {
                last_error: Some(ErrorReport { at, message }),
                ..*old(self)
            }),
    {
        self.last_error = Some(ErrorReport { at, message });
    }

    /// Clears the last error.
    pub fn clear_error(&mut self)
        ensures
            *final(self) == (HealthStatus { last_error: None, ..*old(self) }),
    {
        self.last_error = None;
    }

    /// Adds a connection that the supervised `tor` reported.
    pub fn push_stream_event(&mut self, event: StreamEvent)
        ensures
            final(self).stream_events@ == old(self).stream_events@.push(event),
            *final(self) == (HealthStatus {
                stream_events: final(self).stream_events,
                ..*old(self)
            }),
    {
        self.stream_events.push(event);
    }

    /// Counts a SOCKS connection that begins.
    pub fn connection_opened(&mut self)
        requires
            old(self).socks_connections_total < u64::MAX,
            old(self).socks_connections_active < u64::MAX,
        ensures
            *final(self) == opened(*old(self)),
    {
        self.socks_connections_total = self.socks_connections_total + 1;
        self.socks_connections_active = self.socks_connections_active + 1;
    }

    /// Counts a SOCKS connection that ends.
    pub fn connection_closed(&mut self)
        requires
            old(self).socks_connections_active > 0,
        ensures
            *final(self) == closed_one(*old(self)),
    {
        self.socks_connections_active = self.socks_connections_active - 1;
    }
}

impl Default for HealthStatus {
    /// Nothing has happened yet.
    fn default() -> (s: Self)
        ensures
            s.active_bridge_index is None,
            s.active_bridge_line is None,
            s.last_check_at is None,
            s.last_switch_at is None,
            s.consecutive_failures == 0,
            s.total_switches == 0,
            s.history@.len() == 0,
            s.candidates@.len() == 0,
            s.socks_connections_total == 0,
            s.socks_connections_active == 0,
            !s.transparent_enabled,
            s.last_error is None,
            s.stream_events@.len() == 0,
    {
        HealthStatus {
            active_bridge_index: None,
            active_bridge_line: None,
            last_check_at: None,
            last_switch_at: None,
            consecutive_failures: 0,
            total_switches: 0,
            history: Vec::new(),
            candidates: Vec::new(),
            socks_connections_total: 0,
            socks_connections_active: 0,
            transparent_enabled: false,
            last_error: None,
            stream_events: Vec::new(),
        }
    }
}

fn row_position(list: &Vec<CandidateStatus>, index: usize) -> (at: usize)
    ensures
        at == find_row(rows_of(list@), index as nat),
{
    let mut i: usize = 0;
    let ghost rows = rows_of(list@);
    proof {
        find_row_bounds(rows, index as nat);
        assert(rows.skip(0) == rows);
    }
    while i < list.len()
        invariant
            i <= list@.len(),
            rows == rows_of(list@),
            find_row(rows, index as nat) == i + find_row(rows.skip(i as int), index as nat),
        decreases list@.len() - i,
    {
        let ghost rest = rows.skip(i as int);
        assert(rest[0] == list@[i as int].row());
        if list[i].index == index {
            return i;
        }
        assert(rest.drop_first() == rows.skip(i + 1));
        i = i + 1;
    }
    i
}

} // verus!
