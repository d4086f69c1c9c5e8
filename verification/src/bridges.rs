//! Bridges and pluggable transports: bridge lines, the configuration that
//! each one calls for, how a health check is judged, and the failover order.
//!
//! A health check bootstraps a throwaway client through exactly one bridge. It
//! is the caller that does so; what came of it is judged here.
use crate::discovery;
use crate::span::Span;
use crate::text;
use vstd::prelude::*;
use vstd::string::*;

verus! {

// ---------------------------------------------------------------------------
// What is asked of the Tor crates.
// ---------------------------------------------------------------------------
/// What parsing a bridge line gives: the name of its transport (empty for a
/// direct bridge), or why the line is no bridge line.
pub uninterp spec fn parsed_bridge_line(line: Seq<char>) -> Result<Seq<char>, Seq<char>>;

/// `<BridgeConfigBuilder as FromStr>::from_str` of `tor-guardmgr`, and
/// `get_transport` on the result: the line's transport, or the error's text.
/// Both depend on the line alone. Which lines parse is left unsaid: it is the
/// bridge line syntax of that crate.
#[verifier::external_body]
fn parse_bridge(line: &str) -> (res: Result<String, String>)
    ensures
        match res {
            Ok(t) => parsed_bridge_line(line@) == Ok::<Seq<char>, Seq<char>>(t@),
            Err(e) => parsed_bridge_line(line@) == Err::<Seq<char>, Seq<char>>(e@),
        },
{
    match line.parse::<tor_guardmgr::bridge::BridgeConfigBuilder>() {
        Ok(b) => Ok(b.get_transport().unwrap_or("").to_string()),
        Err(e) => Err(e.to_string()),
    }
}

/// An ASCII letter or an underscore.
pub open spec fn starts_name(c: char) -> bool {
    ('a' <= c && c <= 'z') || ('A' <= c && c <= 'Z') || c == '_'
}

/// An ASCII letter in lower case; any other character as it is.
pub open spec fn lower(c: char) -> char {
    if 'A' <= c && c <= 'Z' {
        (c as u32 + 32) as char
    } else {
        c
    }
}

/// Whether a text names a pluggable transport: a C identifier that is not
/// `bridge` in any case.
pub open spec fn is_transport_name(s: Seq<char>) -> bool {
    &&& s.len() > 0
    &&& starts_name(s[0])
    &&& forall|i: int| 0 <= i < s.len() ==> starts_name(#[trigger] s[i]) || text::is_digit(s[i])
    &&& s.map_values(|c: char| lower(c)) != "bridge"@
}

/// `<PtTransportName as FromStr>::from_str` of `tor-linkspec` succeeds exactly
/// on C identifiers other than `bridge`, whose case does not matter.
#[verifier::external_body]
fn transport_name_parses(name: &str) -> (r: bool)
    ensures
        r == is_transport_name(name@),
{
    name.parse::<tor_linkspec::PtTransportName>().is_ok()
}

// ---------------------------------------------------------------------------
// Transports.
// ---------------------------------------------------------------------------
/// A pluggable-transport binary to register.
#[derive(Debug)]
pub struct TransportBinary {
    /// The transport, such as `obfs4`.
    pub protocol: String,
    /// The binary, such as `/usr/bin/obfs4proxy`.
    pub path: String,
}

/// A transport as a mathematical value.
pub struct Transport {
    /// The transport's name.
    pub protocol: Seq<char>,
    /// The binary.
    pub path: Seq<char>,
}

impl View for TransportBinary {
    type V = Transport;

    open spec fn view(&self) -> Transport {
        Transport { protocol: self.protocol@, path: self.path@ }
    }
}

/// What the transport manager is told of a binary.
#[derive(Debug)]
pub struct TransportConfig {
    /// The transport that it provides.
    pub protocol: String,
    /// The binary.
    pub path: String,
    /// Whether it is launched at once.
    pub run_on_startup: bool,
}

/// A list of transports as mathematical values.
pub open spec fn transports_of(list: Seq<TransportBinary>) -> Seq<Transport> {
    list.map_values(|t: TransportBinary| t@)
}

/// The message on a transport whose name is none.
pub open spec fn bad_protocol_text(protocol: Seq<char>) -> Seq<char> {
    "invalid pluggable transport protocol name '"@ + protocol + "'"@
}

impl TransportBinary {
    /// A binary for a transport.
    pub fn new(protocol: &str, path: &str) -> (t: Self)
        ensures
            t@ == (Transport { protocol: protocol@, path: path@ }),
    {
        TransportBinary { protocol: protocol.to_owned(), path: path.to_owned() }
    }

    /// What the transport manager is told of the binary; an error if the
    /// transport's name is none.
    pub fn to_builder(&self) -> (res: Result<TransportConfig, String>)
        ensures
            match res {
                Ok(c) => is_transport_name(self@.protocol) && c@ == (TransportSetup {
                    transport: self@,
                    run_on_startup: true,
                }),
                Err(e) => !is_transport_name(self@.protocol) && e@ == bad_protocol_text(
                    self@.protocol,
                ),
            },
    {
        if transport_name_parses(self.protocol.as_str()) {
            Ok(
                TransportConfig {
                    protocol: self.protocol.clone(),
                    path: self.path.clone(),
                    run_on_startup: true,
                },
            )
        } else {
            let mut e = "invalid pluggable transport protocol name '".to_owned();
            e.append(self.protocol.as_str());
            e.append("'");
            Err(e)
        }
    }
}

// ---------------------------------------------------------------------------
// Bridge lines.
// ---------------------------------------------------------------------------
/// The message on a line that is no bridge line.
pub open spec fn bad_line_text(line: Seq<char>, reason: Seq<char>) -> Seq<char> {
    "invalid bridge line '"@ + line + "': "@ + reason
}

/// The message on a line that is no bridge line.
pub fn bad_line_message(line: &str, reason: &str) -> (s: String)
    ensures
        s@ == bad_line_text(line@, reason@),
{
    let mut s = "invalid bridge line '".to_owned();
    s.append(line);
    s.append("': ");
    s.append(reason);
    s
}

/// Validates a bridge line without keeping it.
pub fn parse_bridge_line(line: &str) -> (res: Result<(), String>)
    ensures
        match parsed_bridge_line(line@) {
            Ok(_) => res is Ok,
            Err(reason) => res matches Err(e) && e@ == bad_line_text(line@, reason),
        },
{
    match parse_bridge(line) {
        Ok(_) => Ok(()),
        Err(reason) => Err(bad_line_message(line, reason.as_str())),
    }
}

// ---------------------------------------------------------------------------
// The configured bridges.
// ---------------------------------------------------------------------------
/// Where a client keeps its state.
#[derive(Debug)]
pub enum Storage {
    /// At the default place.
    Default,
    /// In these directories.
    Directories { state: String, cache: String },
}

/// The configuration of a client that uses exactly one bridge.
#[derive(Debug)]
pub struct ClientConfig {
    /// The bridge.
    pub bridge_line: String,
    /// The registered transports.
    pub transports: Vec<TransportConfig>,
    /// Where the client keeps its state.
    pub storage: Storage,
}

/// The configured bridges, in failover order, and the registered transports.
#[derive(Debug)]
pub struct BridgeManager {
    transports: Vec<TransportBinary>,
    lines: Vec<String>,
}

/// The message on a place without a bridge.
pub open spec fn no_candidate_text(idx: nat) -> Seq<char> {
    "no bridge candidate at index "@ + text::decimal_text(idx)
}

/// Whether a transport is registered.
pub open spec fn registered(transports: Seq<Transport>, protocol: Seq<char>) -> bool {
    exists|i: int| 0 <= i < transports.len() && (#[trigger] transports[i]).protocol == protocol
}

/// The failover order once a bridge was added.
pub open spec fn with_bridge(order: Seq<Seq<char>>, line: Seq<char>) -> Seq<Seq<char>> {
    order.push(line)
}

/// The registered transports once a bridge of a transport (empty for a direct
/// bridge) was added, for which a binary was located or not; none if the binary is
/// missing.
pub open spec fn with_transport(
    known: Seq<Transport>,
    transport: Seq<char>,
    located: Option<Seq<char>>,
) -> Option<Seq<Transport>> {
    if transport.len() == 0 || registered(known, transport) {
        Some(known)
    } else {
        match located {
            Some(path) => Some(known.push(Transport { protocol: transport, path })),
            None => None,
        }
    }
}

/// The first registered transport whose name is none.
pub open spec fn first_bad(transports: Seq<Transport>) -> Option<Seq<char>>
    decreases transports.len(),
{
    if transports.len() == 0 {
        None
    } else if !is_transport_name(transports[0].protocol) {
        Some(transports[0].protocol)
    } else {
        first_bad(transports.drop_first())
    }
}

/// What the transport manager is told of a transport, as a mathematical value.
pub struct TransportSetup {
    /// The transport and its binary.
    pub transport: Transport,
    /// Whether it is launched at once.
    pub run_on_startup: bool,
}

impl View for TransportConfig {
    type V = TransportSetup;

    open spec fn view(&self) -> TransportSetup {
        TransportSetup {
            transport: Transport { protocol: self.protocol@, path: self.path@ },
            run_on_startup: self.run_on_startup,
        }
    }
}

/// The transports of a configuration as mathematical values.
pub open spec fn configured(list: Seq<TransportConfig>) -> Seq<TransportSetup> {
    list.map_values(|t: TransportConfig| t@)
}

/// The transports, each launched at once.
pub open spec fn launched(transports: Seq<Transport>) -> Seq<TransportSetup> {
    transports.map_values(|t: Transport| TransportSetup { transport: t, run_on_startup: true })
}

impl BridgeManager {
    /// The bridge lines, in failover order.
    pub closed spec fn order(self) -> Seq<Seq<char>> {
        text::texts(self.lines@)
    }

    /// The registered transports.
    pub closed spec fn known(self) -> Seq<Transport> {
        transports_of(self.transports@)
    }

    /// Whether `res` is the configuration for the bridge at a place: exactly
    /// that bridge, and all registered transports, launched at once; or the
    /// error on a place without a bridge, or on the first transport whose name
    /// is none.
    pub open spec fn configures(
        self,
        idx: usize,
        storage: Storage,
        res: Result<ClientConfig, String>,
    ) -> bool {
        match res {
            Ok(c) => {
                &&& idx < self.order().len()
                &&& first_bad(self.known()) is None
                &&& c.bridge_line@ == self.order()[idx as int]
                &&& configured(c.transports@) == launched(self.known())
                &&& c.storage == storage
            },
            Err(e) => if idx >= self.order().len() {
                e@ == no_candidate_text(idx as nat)
            } else {
                first_bad(self.known()) matches Some(p) && e@ == bad_protocol_text(p)
            },
        }
    }

    /// No bridges yet.
    pub fn new(transports: Vec<TransportBinary>) -> (m: Self)
        ensures
            m.order().len() == 0,
            m.known() == transports_of(transports@),
    {
        BridgeManager { transports, lines: Vec::new() }
    }

    /// Whether a transport is registered.
    pub fn has_transport(&self, protocol: &str) -> (r: bool)
        ensures
            r == registered(self.known(), protocol@),
    {
        let ghost known = self.known();
        let mut i: usize = 0;
        while i < self.transports.len()
            invariant
                i <= self.transports@.len(),
                known == transports_of(self.transports@),
                forall|j: int| 0 <= j < i ==> (#[trigger] known[j]).protocol != protocol@,
            decreases self.transports@.len() - i,
        {
            assert(known[i as int] == self.transports@[i as int]@);
            if text::same(self.transports[i].protocol.as_str(), protocol) {
                return true;
            }
            i = i + 1;
        }
        false
    }

    /// Adds a bridge of a given transport (empty for a direct bridge) to the
    /// end of the failover order, and returns its place. A transport that is
    /// not registered yet is registered with the binary that was located, or
    /// the bridge is refused with `missing`.
    pub fn add_candidate(
        &mut self,
        line: &str,
        transport: &str,
        located: Option<String>,
        missing: String,
    ) -> (res: Result<usize, String>)
        ensures
            match with_transport(old(self).known(), transport@, text::opt_text(located)) {
                Some(known) => {
                    &&& res matches Ok(i) && i == old(self).order().len()
                    &&& final(self).order() == with_bridge(old(self).order(), line@)
                    &&& final(self).known() == known
                },
                None => {
                    &&& res == Err::<usize, String>(missing)
                    &&& final(self).order() == old(self).order()
                    &&& final(self).known() == old(self).known()
                },
            },
    {
        let ghost known = self.known();
        let ghost order = self.order();
        if text::chars_of(transport).len() != 0 && !self.has_transport(transport) {
            match located {
                Some(path) => {
                    let t = TransportBinary::new(transport, path.as_str());
                    self.transports.push(t);
                    assert(self.known() == known.push(t@));
                },
                None => {
                    return Err(missing);
                },
            }
        }
        let index: usize = self.lines.len();
        self.lines.push(line.to_owned());
        assert(self.order() == order.push(line@));
        Ok(index)
    }

    /// Adds a bridge line to the end of the failover order and returns its
    /// place; bridges that were added first are preferred. If the line names a
    /// transport that is not registered, its binary is looked for, and the
    /// line is refused if there is none.
    pub fn add_bridge_line<F: Fn(&str) -> bool, G: Fn(&str) -> bool>(
        &mut self,
        line: &str,
        path_dirs: &Vec<String>,
        is_executable: F,
        exists_at: G,
    ) -> (res: Result<usize, String>)
        requires
            discovery::askable(is_executable),
            discovery::askable(exists_at),
        ensures
            match parsed_bridge_line(line@) {
                Err(reason) => {
                    &&& res matches Err(e) && e@ == bad_line_text(line@, reason)
                    &&& final(self).order() == old(self).order()
                    &&& final(self).known() == old(self).known()
                },
                Ok(transport) => {
                    let dirs = text::texts(path_dirs@);
                    let ready = transport.len() == 0 || registered(old(self).known(), transport);
                    let places = discovery::search_order(
                        discovery::binary_names(transport),
                        dirs + discovery::extra_dirs(),
                    );
                    match res {
                        Ok(i) => {
                            &&& i == old(self).order().len()
                            &&& final(self).order() == with_bridge(old(self).order(), line@)
                            &&& ready ==> final(self).known() == old(self).known()
                            &&& !ready ==> exists|path: Seq<char>|
                                #[trigger] discovery::first_found(
                                    is_executable,
                                    places,
                                    Some(path),
                                ) && final(self).known() == old(self).known().push(
                                    Transport { protocol: transport, path },
                                )
                        },
                        Err(e) => {
                            &&& !ready
                            &&& discovery::first_found(is_executable, places, None)
                            &&& discovery::says_missing(exists_at, dirs, transport, e@)
                            &&& final(self).order() == old(self).order()
                            &&& final(self).known() == old(self).known()
                        },
                    }
                },
            },
    {
        let transport = match parse_bridge(line) {
            Ok(t) => t,
            Err(reason) => {
                return Err(bad_line_message(line, reason.as_str()));
            },
        };
        if text::chars_of(transport.as_str()).len() == 0 || self.has_transport(
            transport.as_str(),
        ) {
            return self.add_candidate(line, transport.as_str(), None, String::new());
        }
        let located = discovery::locate_transport_binary(
            transport.as_str(),
            path_dirs,
            is_executable,
        );
        let ghost found = text::opt_text(located);
        let missing = match located {
            Some(_) => String::new(),
            None => discovery::missing_transport_message(
                transport.as_str(),
                path_dirs,
                exists_at,
            ),
        };
        let res = self.add_candidate(line, transport.as_str(), located, missing);
        proof {
            let places = discovery::search_order(
                discovery::binary_names(transport@),
                text::texts(path_dirs@) + discovery::extra_dirs(),
            );
            assert(discovery::first_found(is_executable, places, found));
        }
        res
    }

    /// How many bridges are configured.
    pub fn candidate_count(&self) -> (n: usize)
        ensures
            n == self.order().len(),
    {
        self.lines.len()
    }

    /// All configured bridges with their places, in failover order.
    pub fn all_candidates(&self) -> (list: Vec<(usize, String)>)
        ensures
            list@.len() == self.order().len(),
            forall|i: int|
                0 <= i < list@.len() ==> (#[trigger] list@[i]).0 == i && list@[i].1@
                    == self.order()[i],
    {
        let mut list: Vec<(usize, String)> = Vec::new();
        let mut i: usize = 0;
        while i < self.lines.len()
            invariant
                i <= self.lines@.len(),
                list@.len() == i,
                forall|j: int|
                    0 <= j < i ==> (#[trigger] list@[j]).0 == j && list@[j].1@ == self.lines@[j]@,
            decreases self.lines@.len() - i,
        {
            list.push((i, self.lines[i].clone()));
            i = i + 1;
        }
        list
    }

    /// The bridge line at a place.
    pub fn candidate_line(&self, idx: usize) -> (line: Option<String>)
        ensures
            match line {
                Some(l) => idx < self.order().len() && l@ == self.order()[idx as int],
                None => idx >= self.order().len(),
            },
    {
        if idx < self.lines.len() {
            Some(self.lines[idx].clone())
        } else {
            None
        }
    }

    /// The bridge line at a place, or an error that names it.
    pub fn candidate(&self, idx: usize) -> (res: Result<String, String>)
        ensures
            match res {
                Ok(l) => idx < self.order().len() && l@ == self.order()[idx as int],
                Err(e) => idx >= self.order().len() && e@ == no_candidate_text(idx as nat),
            },
    {
        match self.candidate_line(idx) {
            Some(line) => Ok(line),
            None => {
                let mut e = "no bridge candidate at index ".to_owned();
                e.append(text::decimal(idx as u128).as_str());
                Err(e)
            },
        }
    }

    /// The configuration of a client that uses exactly the bridge at a place,
    /// with all registered transports.
    pub fn build_config(&self, idx: usize, storage: Storage) -> (res: Result<ClientConfig, String>)
        ensures
            self.configures(idx, storage, res),
    {
        let bridge_line = match self.candidate(idx) {
            Ok(line) => line,
            Err(e) => {
                return Err(e);
            },
        };
        let ghost known = self.known();
        let mut transports: Vec<TransportConfig> = Vec::new();
        let mut i: usize = 0;
        assert(known.skip(0) == known);
        while i < self.transports.len()
            invariant
                i <= self.transports@.len(),
                idx < self.order().len(),
                known == self.known(),
                known == transports_of(self.transports@),
                configured(transports@) == launched(known.take(i as int)),
                first_bad(known) == first_bad(known.skip(i as int)),
            decreases self.transports@.len() - i,
        {
            let ghost rest = known.skip(i as int);
            assert(rest[0] == self.transports@[i as int]@);
            assert(rest.drop_first() == known.skip(i + 1));
            match self.transports[i].to_builder() {
                Ok(c) => {
                    let ghost before = configured(transports@);
                    transports.push(c);
                    assert(configured(transports@) == before.push(c@));
                    assert(launched(known.take(i + 1)) == before.push(c@));
                },
                Err(e) => {
                    return Err(e);
                },
            }
            i = i + 1;
        }
        assert(known.take(i as int) == known);
        Ok(ClientConfig { bridge_line, transports, storage })
    }

    /// The configuration of the real, long-lived client once the bridge at a
    /// place was found healthy.
    pub fn production_config(&self, idx: usize) -> (res: Result<ClientConfig, String>)
        ensures
            self.configures(idx, Storage::Default, res),
    {
        self.build_config(idx, Storage::Default)
    }
}

// ---------------------------------------------------------------------------
// Health checks.
// ---------------------------------------------------------------------------
/// What came of a health check.
#[derive(Debug)]
pub struct HealthResult {
    /// The bridge line.
    pub candidate_line: String,
    /// Whether a connection was made through the bridge.
    pub success: bool,
    /// How long it took.
    pub latency: Span,
    /// What went wrong, if something did.
    pub error: Option<String>,
}

/// How far a health check got.
#[derive(Debug)]
pub enum ProbeOutcome {
    /// There was no directory for the client's state.
    NoStateDir { error: String },
    /// There was no directory for the client's cache.
    NoCacheDir { error: String },
    /// There was no configuration for the bridge.
    NoConfig { error: String },
    /// A connection was made.
    Connected { elapsed: Span },
    /// The client or the connection failed.
    Failed { elapsed: Span, error: String },
    /// Time ran out.
    TimedOut,
}

/// What a health check connects to through the bridge.
#[derive(Debug)]
pub struct ProbeTarget {
    /// The host.
    pub host: String,
    /// The port.
    pub port: u16,
    /// The identity under which the connection is isolated.
    pub identity: String,
}

/// What a health check connects to through the bridge.
pub fn probe_target() -> (t: ProbeTarget)
    ensures
        t.host@ == "check.torproject.org"@,
        t.port == 443,
        t.identity@ == "bridge-health-check"@,
{
    ProbeTarget {
        host: "check.torproject.org".to_owned(),
        port: 443,
        identity: "bridge-health-check".to_owned(),
    }
}

/// The message on a check for which time ran out, from how the timeout is
/// printed.
pub open spec fn timeout_text(printed: Seq<char>) -> Seq<char> {
    "health check timed out after "@ + printed
}

/// The message on a check for which time ran out, from how the timeout is
/// printed.
pub fn timeout_message(printed: &str) -> (s: String)
    ensures
        s@ == timeout_text(printed@),
{
    let mut s = "health check timed out after ".to_owned();
    s.append(printed);
    s
}

/// What is reported as the error.
pub open spec fn probe_error(outcome: ProbeOutcome, timeout: Span) -> Option<Seq<char>> {
    match outcome {
        ProbeOutcome::NoStateDir { error } => Some("failed to create temp state dir: "@ + error@),
        ProbeOutcome::NoCacheDir { error } => Some("failed to create temp cache dir: "@ + error@),
        ProbeOutcome::NoConfig { error } => Some(error@),
        ProbeOutcome::Connected { .. } => None,
        ProbeOutcome::Failed { error, .. } => Some(error@),
        ProbeOutcome::TimedOut => Some(timeout_text(timeout.text())),
    }
}

/// Whether a latency is the one to report: the time until the outcome, the
/// whole timeout if time ran out, nothing if the check did not begin.
pub open spec fn probe_latency(outcome: ProbeOutcome, timeout: Span, latency: Span) -> bool {
    match outcome {
        ProbeOutcome::Connected { elapsed } => latency == elapsed,
        ProbeOutcome::Failed { elapsed, .. } => latency == elapsed,
        ProbeOutcome::TimedOut => latency == timeout,
        _ => latency.whole_secs() == 0 && latency.subsec_nanos() == 0,
    }
}

/// Whether a result is that of a health check of the bridge at a place, from how
/// far it got.
pub open spec fn judged(
    order: Seq<Seq<char>>,
    idx: usize,
    outcome: ProbeOutcome,
    timeout: Span,
    r: HealthResult,
) -> bool {
    &&& r.candidate_line@ == if idx < order.len() {
        order[idx as int]
    } else {
        ""@
    }
    &&& r.success <==> outcome is Connected
    &&& probe_latency(outcome, timeout, r.latency)
    &&& text::opt_text(r.error) == probe_error(outcome, timeout)
}

impl BridgeManager {
    /// The result of a health check of the bridge at a place, from how far it
    /// got.
    pub fn health_check(
        &self,
        idx: usize,
        outcome: ProbeOutcome,
        timeout: Span,
    ) -> (r: HealthResult)
        ensures
            judged(self.order(), idx, outcome, timeout, r),
    {
        let candidate_line = match self.candidate_line(idx) {
            Some(line) => line,
            None => "".to_owned(),
        };
        match outcome {
            ProbeOutcome::NoStateDir { error } => {
                let mut e = "failed to create temp state dir: ".to_owned();
                e.append(error.as_str());
                let latency = Span::from_secs(0);
                HealthResult { candidate_line, success: false, latency, error: Some(e) }
            },
            ProbeOutcome::NoCacheDir { error } => {
                let mut e = "failed to create temp cache dir: ".to_owned();
                e.append(error.as_str());
                let latency = Span::from_secs(0);
                HealthResult { candidate_line, success: false, latency, error: Some(e) }
            },
            ProbeOutcome::NoConfig { error } => {
                let latency = Span::from_secs(0);
                HealthResult { candidate_line, success: false, latency, error: Some(error) }
            },
            ProbeOutcome::Connected { elapsed } => HealthResult {
                candidate_line,
                success: true,
                latency: elapsed,
                error: None,
            },
            ProbeOutcome::Failed { elapsed, error } => HealthResult {
                candidate_line,
                success: false,
                latency: elapsed,
                error: Some(error),
            },
            ProbeOutcome::TimedOut => HealthResult {
                candidate_line,
                success: false,
                latency: timeout,
                error: Some(timeout_message(timeout.to_text().as_str())),
            },
        }
    }
}

// ---------------------------------------------------------------------------
// The search for a healthy bridge.
// ---------------------------------------------------------------------------
/// What a search does next.
#[derive(Debug, Clone, Copy, PartialEq, Eq, Structural)]
pub enum SearchStep {
    /// Check the bridge at this place.
    Check(usize),
    /// The bridge at this place is healthy: the search is over.
    Found(usize),
    /// Every bridge failed: the search is over.
    Exhausted,
}

/// A search through the bridges in failover order.
#[derive(Debug)]
pub struct HealthSearch {
    count: usize,
    current: usize,
}

/// Where a search goes from the bridge at `current`.
pub open spec fn search_step(count: nat, current: nat, success: bool) -> SearchStep {
    if success {
        SearchStep::Found(current as usize)
    } else if current + 1 < count {
        SearchStep::Check((current + 1) as usize)
    } else {
        SearchStep::Exhausted
    }
}

/// The message once every bridge failed.
pub open spec fn exhausted_text(count: nat) -> Seq<char> {
    "all "@ + text::decimal_text(count) + " configured bridges failed their health check"@
}

impl HealthSearch {
    #[verifier::type_invariant]
    spec fn inside(self) -> bool {
        self.current < self.count
    }

    /// How many bridges there are.
    pub closed spec fn total(self) -> nat {
        self.count as nat
    }

    /// The bridge that is being checked.
    pub closed spec fn at(self) -> nat {
        self.current as nat
    }

    /// Begins a search through `count` bridges with the first one; an error if
    /// there are none.
    pub fn start(count: usize) -> (res: Result<Self, String>)
        ensures
            match res {
                Ok(s) => count > 0 && s.total() == count && s.at() == 0,
                Err(e) => count == 0 && e@ == "no bridge candidates configured"@,
            },
    {
        if count == 0 {
            Err("no bridge candidates configured".to_owned())
        } else {
            Ok(HealthSearch { count, current: 0 })
        }
    }

    /// The bridge that is being checked.
    pub fn current(&self) -> (i: usize)
        ensures
            i == self.at(),
    {
        self.current
    }

    /// Goes on once the bridge was checked.
    pub fn advance(&mut self, success: bool) -> (step: SearchStep)
        ensures
            step == search_step(old(self).total(), old(self).at(), success),
            final(self).total() == old(self).total(),
            final(self).at() < final(self).total(),
            final(self).at() == if step is Check {
                step->Check_0 as nat
            } else {
                old(self).at()
            },
    {
        proof {
            use_type_invariant(&*self);
        }
        if success {
            SearchStep::Found(self.current)
        } else if self.current + 1 < self.count {
            self.current = self.current + 1;
            SearchStep::Check(self.current)
        } else {
            SearchStep::Exhausted
        }
    }

    /// The message once every bridge failed.
    pub fn exhausted_message(&self) -> (s: String)
        ensures
            s@ == exhausted_text(self.total()),
    {
        let mut s = "all ".to_owned();
        s.append(text::decimal(self.count as u128).as_str());
        s.append(" configured bridges failed their health check");
        s
    }
}

/// How a search ends that is at `current`, where `healthy[i]` says how the
/// check of bridge `i` turns out.
pub open spec fn search_result(healthy: Seq<bool>, current: nat) -> SearchStep
    decreases healthy.len() - current,
{
    if current >= healthy.len() {
        SearchStep::Exhausted
    } else {
        match search_step(healthy.len(), current, healthy[current as int]) {
            SearchStep::Check(_) => search_result(healthy, current + 1),
            end => end,
        }
    }
}

/// A search ends with the first healthy bridge in failover order, and with
/// none only if none is healthy.
pub proof fn search_finds_the_first_healthy(healthy: Seq<bool>, current: nat)
    requires
        current < healthy.len() <= usize::MAX,
    ensures
        match search_result(healthy, current) {
            SearchStep::Found(i) => current <= i < healthy.len() && healthy[i as int] && (forall|
                j: int,
            |
                current <= j < i ==> !#[trigger] healthy[j]),
            SearchStep::Exhausted => forall|j: int|
                current <= j < healthy.len() ==> !#[trigger] healthy[j],
            SearchStep::Check(_) => false,
        },
    decreases healthy.len() - current,
{
    if !healthy[current as int] && current + 1 < healthy.len() {
        search_finds_the_first_healthy(healthy, current + 1);
    }
}

} // verus!
