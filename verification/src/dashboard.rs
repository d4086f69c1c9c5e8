//! The live dashboard: what each key does, and what the panels say.
//!
//! A key press changes the dashboard and names an action for the caller to
//! perform. What an action came to is handed back, and ends in the status
//! line.
use crate::cli::{self, EnablePlan, TimedStep};
use crate::killswitch::KillSwitch;
use crate::telemetry::{CandidateStatus, ErrorReport, HealthSample, HealthStatus};
use crate::text;
use vstd::prelude::*;
use vstd::string::*;

verus! {

/// How many lines of the log are shown.
pub const LOG_TAIL_LINES: usize = 10;

/// How long a radical kill switch that was enabled from the dashboard lasts.
pub const RADICAL_TTL_SECS: u64 = 300;

/// A key.
#[derive(Debug, Clone, Copy, PartialEq, Eq, Structural)]
pub enum Key {
    /// A key that types a character.
    Char(char),
    /// Enter.
    Enter,
    /// Escape.
    Esc,
    /// Backspace.
    Backspace,
    /// Any other.
    Other,
}

/// What the keys mean right now.
#[derive(Debug)]
pub enum Mode {
    /// Commands.
    Normal,
    /// Which kill switch to disable.
    ConfirmDisable,
    /// Typing a bridge line.
    AddBridge { buffer: String },
    /// Which kill switch to enable.
    KillSwitchMenu,
    /// Typing the user to confine.
    EnterScopedUid { buffer: String },
    /// Whether to enable the radical kill switch.
    ConfirmRadicalEnable,
    /// Typing an address for the DNS shim.
    EnterDnsAddr { buffer: String },
    /// Whether to enable full anonymization.
    ConfirmFullAnon,
}

/// A [`Mode`] as a mathematical value.
pub enum ModeView {
    /// Commands.
    Normal,
    /// Which kill switch to disable.
    ConfirmDisable,
    /// Typing a bridge line.
    AddBridge(Seq<char>),
    /// Which kill switch to enable.
    KillSwitchMenu,
    /// Typing the user to confine.
    EnterScopedUid(Seq<char>),
    /// Whether to enable the radical kill switch.
    ConfirmRadicalEnable,
    /// Typing an address for the DNS shim.
    EnterDnsAddr(Seq<char>),
    /// Whether to enable full anonymization.
    ConfirmFullAnon,
}

impl View for Mode {
    type V = ModeView;

    open spec fn view(&self) -> ModeView {
        match *self {
            Mode::Normal => ModeView::Normal,
            Mode::ConfirmDisable => ModeView::ConfirmDisable,
            Mode::AddBridge { buffer } => ModeView::AddBridge(buffer@),
            Mode::KillSwitchMenu => ModeView::KillSwitchMenu,
            Mode::EnterScopedUid { buffer } => ModeView::EnterScopedUid(buffer@),
            Mode::ConfirmRadicalEnable => ModeView::ConfirmRadicalEnable,
            Mode::EnterDnsAddr { buffer } => ModeView::EnterDnsAddr(buffer@),
            Mode::ConfirmFullAnon => ModeView::ConfirmFullAnon,
        }
    }
}

/// What the caller is to do after a key press.
#[derive(Debug)]
pub enum Action {
    /// Nothing.
    Nothing,
    /// Leave the dashboard.
    Quit,
    /// Check the active bridge now.
    CheckNow,
    /// Try a new bridge.
    TryAddBridge { line: String },
    /// Stop the DNS shim.
    StopDnsShim,
    /// Start the DNS shim on `address`, which was typed as `typed`.
    StartDnsShim { typed: String, address: String },
    /// Confine a user to loopback.
    EnableScoped { uid: u32 },
    /// Enable the radical kill switch.
    EnableRadical,
    /// Disable the scoped kill switch.
    DisableScoped,
    /// Disable the radical kill switch.
    DisableRadical,
    /// Enable full anonymization.
    EnableFullAnon,
    /// Disable full anonymization.
    DisableFullAnon,
}

/// An [`Action`] as a mathematical value.
pub enum Effect {
    /// Nothing.
    Nothing,
    /// Leave the dashboard.
    Quit,
    /// Check the active bridge now.
    CheckNow,
    /// Try a new bridge.
    TryAddBridge(Seq<char>),
    /// Stop the DNS shim.
    StopDnsShim,
    /// Start the DNS shim on an address, from what was typed.
    StartDnsShim { typed: Seq<char>, address: Seq<char> },
    /// Confine a user to loopback.
    EnableScoped(u32),
    /// Enable the radical kill switch.
    EnableRadical,
    /// Disable the scoped kill switch.
    DisableScoped,
    /// Disable the radical kill switch.
    DisableRadical,
    /// Enable full anonymization.
    EnableFullAnon,
    /// Disable full anonymization.
    DisableFullAnon,
}

impl View for Action {
    type V = Effect;

    open spec fn view(&self) -> Effect {
        match *self {
            Action::Nothing => Effect::Nothing,
            Action::Quit => Effect::Quit,
            Action::CheckNow => Effect::CheckNow,
            Action::TryAddBridge { line } => Effect::TryAddBridge(line@),
            Action::StopDnsShim => Effect::StopDnsShim,
            Action::StartDnsShim { typed, address } => Effect::StartDnsShim {
                typed: typed@,
                address: address@,
            },
            Action::EnableScoped { uid } => Effect::EnableScoped(uid),
            Action::EnableRadical => Effect::EnableRadical,
            Action::DisableScoped => Effect::DisableScoped,
            Action::DisableRadical => Effect::DisableRadical,
            Action::EnableFullAnon => Effect::EnableFullAnon,
            Action::DisableFullAnon => Effect::DisableFullAnon,
        }
    }
}

/// What the process was started with.
#[derive(Debug)]
pub struct ServicesInfo {
    /// Where the SOCKS5 proxy listens.
    pub socks_addr: String,
}

/// The part of the dashboard that keys change.
#[derive(Debug)]
pub struct Dashboard {
    /// What the keys mean right now.
    pub mode: Mode,
    /// The last transient message.
    pub status_line: String,
    /// Where the DNS shim listens, if it runs.
    pub dns_shim_addr: Option<String>,
}

/// A [`Dashboard`] as a mathematical value.
pub struct Screen {
    /// What the keys mean right now.
    pub mode: ModeView,
    /// The last transient message.
    pub status: Seq<char>,
    /// Where the DNS shim listens, if it runs.
    pub dns: Option<Seq<char>>,
}

impl View for Dashboard {
    type V = Screen;

    open spec fn view(&self) -> Screen {
        Screen {
            mode: self.mode@,
            status: self.status_line@,
            dns: text::opt_text(self.dns_shim_addr),
        }
    }
}

// ---------------------------------------------------------------------------
// What each key does.
// ---------------------------------------------------------------------------
impl Screen {
    /// Back to commands, with a message.
    pub open spec fn back(self, status: Seq<char>) -> Screen {
        Screen { mode: ModeView::Normal, status, ..self }
    }

    /// In another mode.
    pub open spec fn enter(self, mode: ModeView) -> Screen {
        Screen { mode, ..self }
    }
}

/// A text after Backspace.
pub open spec fn erased(buffer: Seq<char>) -> Seq<char> {
    if buffer.len() > 0 {
        buffer.drop_last()
    } else {
        buffer
    }
}

/// A command key.
pub open spec fn command(s: Screen, key: Key, anonymizing: bool) -> (Screen, Effect) {
    match key {
        Key::Esc => (s, Effect::Quit),
        Key::Char(c) => if c == 'q' {
            (s, Effect::Quit)
        } else if c == 'c' {
            (
                Screen { status: "requested an immediate bridge health check"@, ..s },
                Effect::CheckNow,
            )
        } else if c == 'a' {
            (s.enter(ModeView::AddBridge(seq![])), Effect::Nothing)
        } else if c == 'n' {
            if s.dns is Some {
                (Screen { dns: None, status: "DNS shim stopped"@, ..s }, Effect::StopDnsShim)
            } else {
                (s.enter(ModeView::EnterDnsAddr("127.0.0.1:9535"@)), Effect::Nothing)
            }
        } else if c == 'k' {
            (s.enter(ModeView::KillSwitchMenu), Effect::Nothing)
        } else if c == 'd' {
            (s.enter(ModeView::ConfirmDisable), Effect::Nothing)
        } else if c == 't' {
            if anonymizing {
                (
                    Screen { status: "stopping full anonymization..."@, ..s },
                    Effect::DisableFullAnon,
                )
            } else {
                (s.enter(ModeView::ConfirmFullAnon), Effect::Nothing)
            }
        } else {
            (s, Effect::Nothing)
        },
        _ => (s, Effect::Nothing),
    }
}

/// What a key press does: the dashboard after it, and what the caller is to
/// do. `anonymizing` says whether full anonymization is in force.
pub open spec fn pressed(s: Screen, key: Key, anonymizing: bool) -> (Screen, Effect) {
    if s.mode != ModeView::Normal && key == Key::Esc {
        (s.back("cancelled"@), Effect::Nothing)
    } else {
        match s.mode {
            ModeView::Normal => command(s, key, anonymizing),
            ModeView::ConfirmDisable => if key == Key::Char('s') {
                (s.enter(ModeView::Normal), Effect::DisableScoped)
            } else if key == Key::Char('r') {
                (s.enter(ModeView::Normal), Effect::DisableRadical)
            } else {
                (s, Effect::Nothing)
            },
            ModeView::KillSwitchMenu => if key == Key::Char('s') {
                (s.enter(ModeView::EnterScopedUid(seq![])), Effect::Nothing)
            } else if key == Key::Char('r') {
                (s.enter(ModeView::ConfirmRadicalEnable), Effect::Nothing)
            } else {
                (s, Effect::Nothing)
            },
            ModeView::ConfirmRadicalEnable => if key == Key::Char('y') {
                (s.back("enabling radical kill switch..."@), Effect::EnableRadical)
            } else {
                (s, Effect::Nothing)
            },
            ModeView::ConfirmFullAnon => if key == Key::Char('y') {
                (s.back("starting full anonymization..."@), Effect::EnableFullAnon)
            } else {
                (s, Effect::Nothing)
            },
            ModeView::AddBridge(buffer) => match key {
                Key::Enter => if text::trim_text(buffer).len() == 0 {
                    (s.back("cancelled (empty bridge line)"@), Effect::Nothing)
                } else {
                    (
                        s.back("checking new bridge... (watch the candidates table)"@),
                        Effect::TryAddBridge(buffer),
                    )
                },
                Key::Backspace => (s.enter(ModeView::AddBridge(erased(buffer))), Effect::Nothing),
                Key::Char(c) => (s.enter(ModeView::AddBridge(buffer.push(c))), Effect::Nothing),
                _ => (s, Effect::Nothing),
            },
            ModeView::EnterScopedUid(buffer) => match key {
                Key::Enter => match text::u32_of(text::trim_text(buffer)) {
                    Some(uid) => (s.enter(ModeView::Normal), Effect::EnableScoped(uid)),
                    None => (
                        s.back("'"@ + buffer + "' is not a valid UID, cancelled"@),
                        Effect::Nothing,
                    ),
                },
                Key::Backspace => (
                    s.enter(ModeView::EnterScopedUid(erased(buffer))),
                    Effect::Nothing,
                ),
                Key::Char(c) => if text::is_digit(c) {
                    (s.enter(ModeView::EnterScopedUid(buffer.push(c))), Effect::Nothing)
                } else {
                    (s, Effect::Nothing)
                },
                _ => (s, Effect::Nothing),
            },
            ModeView::EnterDnsAddr(buffer) => match key {
                Key::Enter => (
                    s.enter(ModeView::Normal),
                    Effect::StartDnsShim { typed: buffer, address: text::trim_text(buffer) },
                ),
                Key::Backspace => (
                    s.enter(ModeView::EnterDnsAddr(erased(buffer))),
                    Effect::Nothing,
                ),
                Key::Char(c) => (s.enter(ModeView::EnterDnsAddr(buffer.push(c))), Effect::Nothing),
                _ => (s, Effect::Nothing),
            },
        }
    }
}

fn pop_last(buffer: String) -> (r: String)
    ensures
        r@ == erased(buffer@),
{
    let mut r = buffer;
    r.pop();
    r
}

fn is_empty_text(s: &str) -> (r: bool)
    ensures
        r == (s@.len() == 0),
{
    text::chars_of(s).len() == 0
}

impl Dashboard {
    /// A dashboard that waits for commands.
    pub fn new(dns_shim_addr: Option<String>) -> (d: Self)
        ensures
            d@ == (Screen {
                mode: ModeView::Normal,
                status: ""@,
                dns: text::opt_text(dns_shim_addr),
            }),
    {
        Dashboard { mode: Mode::Normal, status_line: "".to_owned(), dns_shim_addr }
    }

    /// Handles a key press.
    pub fn handle_key(&mut self, key: Key, anonymizing: bool) -> (action: Action)
        ensures
            (final(self)@, action@) == pressed(old(self)@, key, anonymizing),
    {
        let mut mode = Mode::Normal;
        std::mem::swap(&mut self.mode, &mut mode);
        match mode {
            Mode::Normal => self.handle_command(key, anonymizing),
            Mode::ConfirmDisable => {
                match key {
                    Key::Esc => self.cancel(),
                    Key::Char('s') => Action::DisableScoped,
                    Key::Char('r') => Action::DisableRadical,
                    _ => {
                        self.mode = Mode::ConfirmDisable;
                        Action::Nothing
                    },
                }
            },
            Mode::KillSwitchMenu => {
                match key {
                    Key::Esc => self.cancel(),
                    Key::Char('s') => {
                        self.mode = Mode::EnterScopedUid { buffer: String::new() };
                        Action::Nothing
                    },
                    Key::Char('r') => {
                        self.mode = Mode::ConfirmRadicalEnable;
                        Action::Nothing
                    },
                    _ => {
                        self.mode = Mode::KillSwitchMenu;
                        Action::Nothing
                    },
                }
            },
            Mode::ConfirmRadicalEnable => {
                match key {
                    Key::Esc => self.cancel(),
                    Key::Char('y') => {
                        self.status_line = "enabling radical kill switch...".to_owned();
                        Action::EnableRadical
                    },
                    _ => {
                        self.mode = Mode::ConfirmRadicalEnable;
                        Action::Nothing
                    },
                }
            },
            Mode::ConfirmFullAnon => {
                match key {
                    Key::Esc => self.cancel(),
                    Key::Char('y') => {
                        self.status_line = "starting full anonymization...".to_owned();
                        Action::EnableFullAnon
                    },
                    _ => {
                        self.mode = Mode::ConfirmFullAnon;
                        Action::Nothing
                    },
                }
            },
            Mode::AddBridge { buffer } => self.type_bridge(buffer, key),
            Mode::EnterScopedUid { buffer } => self.type_uid(buffer, key),
            Mode::EnterDnsAddr { buffer } => self.type_dns_addr(buffer, key),
        }
    }

    fn cancel(&mut self) -> (action: Action)
        requires
            old(self)@.mode == ModeView::Normal,
        ensures
            final(self)@ == old(self)@.back("cancelled"@),
            action@ == Effect::Nothing,
    {
        self.status_line = "cancelled".to_owned();
        Action::Nothing
    }

    fn handle_command(&mut self, key: Key, anonymizing: bool) -> (action: Action)
        requires
            old(self)@.mode == ModeView::Normal,
        ensures
            (final(self)@, action@) == command(old(self)@, key, anonymizing),
    {
        match key {
            Key::Esc | Key::Char('q') => Action::Quit,
            Key::Char('c') => {
                self.status_line = "requested an immediate bridge health check".to_owned();
                Action::CheckNow
            },
            Key::Char('a') => {
                self.mode = Mode::AddBridge { buffer: String::new() };
                Action::Nothing
            },
            Key::Char('n') => {
                if self.dns_shim_addr.is_some() {
                    self.dns_shim_addr = None;
                    self.status_line = "DNS shim stopped".to_owned();
                    Action::StopDnsShim
                } else {
                    self.mode = Mode::EnterDnsAddr { buffer: "127.0.0.1:9535".to_owned() };
                    Action::Nothing
                }
            },
            Key::Char('k') => {
                self.mode = Mode::KillSwitchMenu;
                Action::Nothing
            },
            Key::Char('d') => {
                self.mode = Mode::ConfirmDisable;
                Action::Nothing
            },
            Key::Char('t') => {
                if anonymizing {
                    self.status_line = "stopping full anonymization...".to_owned();
                    Action::DisableFullAnon
                } else {
                    self.mode = Mode::ConfirmFullAnon;
                    Action::Nothing
                }
            },
            _ => Action::Nothing,
        }
    }

    fn type_bridge(&mut self, buffer: String, key: Key) -> (action: Action)
        requires
            old(self)@.mode == ModeView::Normal,
        ensures
            (final(self)@, action@) == pressed(
                old(self)@.enter(ModeView::AddBridge(buffer@)),
                key,
                false,
            ),
    {
        match key {
            Key::Esc => self.cancel(),
            Key::Enter => {
                if is_empty_text(text::trim(buffer.as_str()).as_str()) {
                    self.status_line = "cancelled (empty bridge line)".to_owned();
                    Action::Nothing
                } else {
                    self.status_line = "checking new bridge... (watch the candidates table)".to_owned();
                    Action::TryAddBridge { line: buffer }
                }
            },
            Key::Backspace => {
                self.mode = Mode::AddBridge { buffer: pop_last(buffer) };
                Action::Nothing
            },
            Key::Char(c) => {
                let mut longer = buffer;
                longer.push(c);
                self.mode = Mode::AddBridge { buffer: longer };
                Action::Nothing
            },
            Key::Other => {
                self.mode = Mode::AddBridge { buffer };
                Action::Nothing
            },
        }
    }

    fn type_uid(&mut self, buffer: String, key: Key) -> (action: Action)
        requires
            old(self)@.mode == ModeView::Normal,
        ensures
            (final(self)@, action@) == pressed(
                old(self)@.enter(ModeView::EnterScopedUid(buffer@)),
                key,
                false,
            ),
    {
        match key {
            Key::Esc => self.cancel(),
            Key::Enter => {
                match text::parse_u32(text::trim(buffer.as_str()).as_str()) {
                    Some(uid) => Action::EnableScoped { uid },
                    None => {
                        let mut line = "'".to_owned();
                        line.append(buffer.as_str());
                        line.append("' is not a valid UID, cancelled");
                        self.status_line = line;
                        Action::Nothing
                    },
                }
            },
            Key::Backspace => {
                self.mode = Mode::EnterScopedUid { buffer: pop_last(buffer) };
                Action::Nothing
            },
            Key::Char(c) => {
                let mut longer = buffer;
                if '0' <= c && c <= '9' {
                    longer.push(c);
                }
                self.mode = Mode::EnterScopedUid { buffer: longer };
                Action::Nothing
            },
            Key::Other => {
                self.mode = Mode::EnterScopedUid { buffer };
                Action::Nothing
            },
        }
    }

    fn type_dns_addr(&mut self, buffer: String, key: Key) -> (action: Action)
        requires
            old(self)@.mode == ModeView::Normal,
        ensures
            (final(self)@, action@) == pressed(
                old(self)@.enter(ModeView::EnterDnsAddr(buffer@)),
                key,
                false,
            ),
    {
        match key {
            Key::Esc => self.cancel(),
            Key::Enter => {
                let address = text::trim(buffer.as_str());
                Action::StartDnsShim { typed: buffer, address }
            },
            Key::Backspace => {
                self.mode = Mode::EnterDnsAddr { buffer: pop_last(buffer) };
                Action::Nothing
            },
            Key::Char(c) => {
                let mut longer = buffer;
                longer.push(c);
                self.mode = Mode::EnterDnsAddr { buffer: longer };
                Action::Nothing
            },
            Key::Other => {
                self.mode = Mode::EnterDnsAddr { buffer };
                Action::Nothing
            },
        }
    }
}

/// Plans [`Action::EnableRadical`]: the radical switch for the process's own
/// user, lifted again after [`RADICAL_TTL_SECS`]; an error if the user could not
/// be read.
pub fn plan_radical(own_uid: Result<u32, String>) -> (plan: Result<EnablePlan, String>)
    ensures
        match own_uid {
            Ok(uid) => plan matches Ok(p) && p.switch == (KillSwitch::Radical { anonet_uid: uid })
                && p.ttl_secs == Some(RADICAL_TTL_SECS),
            Err(e) => plan == Err::<EnablePlan, String>(e),
        },
{
    match own_uid {
        Ok(uid) => Ok(
            EnablePlan {
                switch: KillSwitch::Radical { anonet_uid: uid },
                ttl_secs: Some(RADICAL_TTL_SECS),
            },
        ),
        Err(e) => Err(e),
    }
}

/// The health status once something that runs in the background came out: an
/// error stays until the next request, a success leaves everything as it is.
pub open spec fn background_reported(
    before: HealthStatus,
    after: HealthStatus,
    result: Result<(), String>,
    now: u128,
) -> bool {
    match result {
        Ok(_) => after == before,
        Err(e) => {
            &&& after.last_error matches Some(r) && r.at == now && r.message@ == e@
            &&& after == (HealthStatus { last_error: after.last_error, ..before })
        },
    }
}

/// Something that runs in the background is asked for: the last error no longer
/// counts.
pub fn background_requested(status: &mut HealthStatus)
    ensures
        *final(status) == (HealthStatus { last_error: None, ..*old(status) }),
{
    status.clear_error();
}

/// A step of something that runs in the background came out: planning, enabling
/// or lifting the radical switch, or serving DNS.
pub fn background_finished(status: &mut HealthStatus, result: &Result<(), String>, now: u128)
    ensures
        background_reported(*old(status), *final(status), *result, now),
{
    match result {
        Ok(_) => {},
        Err(e) => {
            status.record_error(now, e.clone());
        },
    }
}

// ---------------------------------------------------------------------------
// What actions came to.
// ---------------------------------------------------------------------------
/// `good`, or `bad` and the error.
pub open spec fn outcome_text(
    result: Result<(), String>,
    good: Seq<char>,
    bad: Seq<char>,
) -> Seq<char> {
    match result {
        Ok(_) => good,
        Err(e) => bad + e@,
    }
}

/// What is said once a user is confined.
pub open spec fn confined_text(uid: u32) -> Seq<char> {
    "scoped kill switch enabled, confining uid "@ + text::decimal_text(uid as nat)
        + " to loopback"@
}

/// What is said of an address that is none.
pub open spec fn bad_address_text(typed: Seq<char>) -> Seq<char> {
    "'"@ + typed + "' is not a valid address (expected host:port)"@
}

impl Dashboard {
    /// The scoped kill switch was enabled, or not.
    pub fn scoped_enabled(&mut self, uid: u32, result: Result<(), String>)
        ensures
            final(self)@ == (Screen {
                status: outcome_text(
                    result,
                    confined_text(uid),
                    "failed to enable scoped kill switch: "@,
                ),
                ..old(self)@
            }),
    {
        match result {
            Ok(_) => {
                let mut line = "scoped kill switch enabled, confining uid ".to_owned();
                line.append(text::decimal(uid as u128).as_str());
                line.append(" to loopback");
                self.status_line = line;
            },
            Err(e) => {
                let mut line = "failed to enable scoped kill switch: ".to_owned();
                line.append(e.as_str());
                self.status_line = line;
            },
        }
    }

    /// The scoped kill switch was disabled, or not.
    pub fn scoped_disabled(&mut self, result: Result<(), String>)
        ensures
            final(self)@ == (Screen {
                status: outcome_text(
                    result,
                    "scoped kill switch disabled"@,
                    "failed to disable scoped kill switch: "@,
                ),
                ..old(self)@
            }),
    {
        match result {
            Ok(_) => {
                self.status_line = "scoped kill switch disabled".to_owned();
            },
            Err(e) => {
                let mut line = "failed to disable scoped kill switch: ".to_owned();
                line.append(e.as_str());
                self.status_line = line;
            },
        }
    }

    /// The radical kill switch was disabled, or not.
    pub fn radical_disabled(&mut self, result: Result<(), String>)
        ensures
            final(self)@ == (Screen {
                status: outcome_text(
                    result,
                    "radical kill switch disabled"@,
                    "failed to disable radical kill switch: "@,
                ),
                ..old(self)@
            }),
    {
        match result {
            Ok(_) => {
                self.status_line = "radical kill switch disabled".to_owned();
            },
            Err(e) => {
                let mut line = "failed to disable radical kill switch: ".to_owned();
                line.append(e.as_str());
                self.status_line = line;
            },
        }
    }

    /// What was typed is no address.
    pub fn dns_addr_rejected(&mut self, typed: &str)
        ensures
            final(self)@ == (Screen {
                status: bad_address_text(typed@),
                ..old(self)@
            }),
    {
        let mut line = "'".to_owned();
        line.append(typed);
        line.append("' is not a valid address (expected host:port)");
        self.status_line = line;
    }

    /// The DNS shim was started on `address`, or not; it now listens on
    /// `bound`, if it runs.
    pub fn dns_started(
        &mut self,
        address: &str,
        result: Result<(), String>,
        bound: Option<String>,
    )
        ensures
            final(self)@ == (Screen {
                status: outcome_text(
                    result,
                    "DNS shim started on "@ + address@,
                    "failed to start DNS shim: "@,
                ),
                dns: text::opt_text(bound),
                ..old(self)@
            }),
    {
        match result {
            Ok(_) => {
                let mut line = "DNS shim started on ".to_owned();
                line.append(address);
                self.status_line = line;
            },
            Err(e) => {
                let mut line = "failed to start DNS shim: ".to_owned();
                line.append(e.as_str());
                self.status_line = line;
            },
        }
        self.dns_shim_addr = bound;
    }

    /// Where the DNS shim listens has changed.
    pub fn dns_changed(&mut self, bound: Option<String>)
        ensures
            final(self)@ == (Screen { dns: text::opt_text(bound), ..old(self)@ }),
    {
        self.dns_shim_addr = bound;
    }

    /// The keyboard could not be read.
    pub fn input_failed(&mut self, error: &str)
        ensures
            final(self)@ == (Screen { status: "input error: "@ + error@, ..old(self)@ }),
    {
        let mut line = "input error: ".to_owned();
        line.append(error);
        self.status_line = line;
    }
}

// ---------------------------------------------------------------------------
// What the panels say.
// ---------------------------------------------------------------------------
impl Mode {
    /// The keys that are available.
    pub open spec fn help(self) -> Seq<char> {
        match self {
            Mode::Normal => "q quit   a add bridge   c check bridge now   n toggle DNS shim   k enable a kill switch   d disable a kill switch   t toggle full anonymization"@,
            Mode::ConfirmDisable => "s disable scoped   r disable radical   Esc cancel"@,
            Mode::AddBridge { .. } => "type a Bridge line   Enter submit   Esc cancel"@,
            Mode::KillSwitchMenu => "s enable scoped (asks for a UID)   r enable radical (asks to confirm)   Esc cancel"@,
            Mode::EnterScopedUid { .. } => "type the UID to confine to loopback   Enter apply   Esc cancel"@,
            Mode::ConfirmRadicalEnable => "y confirm (blocks ALL non-loopback traffic for 5 min, auto-reverts)   Esc cancel"@,
            Mode::EnterDnsAddr { .. } => "type a bind address (e.g. 127.0.0.1:9535)   Enter apply   Esc cancel"@,
            Mode::ConfirmFullAnon => "y confirm (routes ALL of this machine's traffic through Tor, needs root)   Esc cancel"@,
        }
    }
}

/// The keys that are available in a mode.
pub fn help_text(mode: &Mode) -> (s: &'static str)
    ensures
        s@ == mode.help(),
{
    match mode {
        Mode::Normal => "q quit   a add bridge   c check bridge now   n toggle DNS shim   k enable a kill switch   d disable a kill switch   t toggle full anonymization",
        Mode::ConfirmDisable => "s disable scoped   r disable radical   Esc cancel",
        Mode::AddBridge { .. } => "type a Bridge line   Enter submit   Esc cancel",
        Mode::KillSwitchMenu => "s enable scoped (asks for a UID)   r enable radical (asks to confirm)   Esc cancel",
        Mode::EnterScopedUid { .. } => "type the UID to confine to loopback   Enter apply   Esc cancel",
        Mode::ConfirmRadicalEnable => "y confirm (blocks ALL non-loopback traffic for 5 min, auto-reverts)   Esc cancel",
        Mode::EnterDnsAddr { .. } => "type a bind address (e.g. 127.0.0.1:9535)   Enter apply   Esc cancel",
        Mode::ConfirmFullAnon => "y confirm (routes ALL of this machine's traffic through Tor, needs root)   Esc cancel",
    }
}

/// The header, with the uptime in hours, minutes and seconds.
pub open spec fn header_line(uptime_secs: nat) -> Seq<char> {
    "anonet \u{2014} live status        uptime "@ + text::two_digit_text(uptime_secs / 3600)
        + ":"@ + text::two_digit_text((uptime_secs / 60) % 60) + ":"@ + text::two_digit_text(
        uptime_secs % 60,
    )
}

/// The header, with the uptime in hours, minutes and seconds.
pub fn header_text(uptime_secs: u64) -> (s: String)
    ensures
        s@ == header_line(uptime_secs as nat),
{
    let mut s = "anonet \u{2014} live status        uptime ".to_owned();
    s.append(text::two_digits(uptime_secs / 3600).as_str());
    s.append(":");
    s.append(text::two_digits((uptime_secs / 60) % 60).as_str());
    s.append(":");
    s.append(text::two_digits(uptime_secs % 60).as_str());
    s
}

/// The line on the DNS shim.
pub open spec fn dns_line(addr: Option<Seq<char>>) -> Seq<char> {
    match addr {
        Some(a) => "DNS shim:  UP on "@ + a + "  (n to stop)"@,
        None => "DNS shim:  not running  (n to start)"@,
    }
}

/// The line on the configured bridges.
pub open spec fn bridges_line(count: nat) -> Seq<char> {
    if count == 0 {
        "Bridges:   none configured (running in direct mode, a to add one)"@
    } else {
        "Bridges:   "@ + text::decimal_text(count)
            + " configured \u{2014} see the candidates table below"@
    }
}

/// The line on full anonymization.
pub open spec fn full_anon_line(running: bool) -> Seq<char> {
    if running {
        "Full anonymization: RUNNING  (t to stop)"@
    } else {
        "Full anonymization: stopped  (t to start)"@
    }
}

/// The services panel.
pub open spec fn services_panel(
    socks_addr: Seq<char>,
    health: HealthStatus,
    dns_addr: Option<Seq<char>>,
) -> Seq<char> {
    "SOCKS5:    UP on "@ + socks_addr + "   ("@ + text::decimal_text(
        health.socks_connections_total as nat,
    ) + " connections total, "@ + text::decimal_text(health.socks_connections_active as nat)
        + " active)\n"@ + dns_line(dns_addr) + "\n"@ + bridges_line(health.candidates@.len())
        + "\n"@ + full_anon_line(health.transparent_enabled)
}

/// The services panel.
pub fn services_text(
    services: &ServicesInfo,
    health: &HealthStatus,
    dns_shim_addr: &Option<String>,
) -> (s: String)
    ensures
        s@ == services_panel(services.socks_addr@, *health, text::opt_text(*dns_shim_addr)),
{
    let dns = match dns_shim_addr {
        Some(a) => {
            let mut line = "DNS shim:  UP on ".to_owned();
            line.append(a.as_str());
            line.append("  (n to stop)");
            line
        },
        None => "DNS shim:  not running  (n to start)".to_owned(),
    };
    let count: usize = health.candidates.len();
    let bridges = if count == 0 {
        "Bridges:   none configured (running in direct mode, a to add one)".to_owned()
    } else {
        let mut line = "Bridges:   ".to_owned();
        line.append(text::decimal(count as u128).as_str());
        line.append(" configured \u{2014} see the candidates table below");
        line
    };
    let mut s = "SOCKS5:    UP on ".to_owned();
    s.append(services.socks_addr.as_str());
    s.append("   (");
    s.append(text::decimal(health.socks_connections_total as u128).as_str());
    s.append(" connections total, ");
    s.append(text::decimal(health.socks_connections_active as u128).as_str());
    s.append(" active)\n");
    s.append(dns.as_str());
    s.append("\n");
    s.append(bridges.as_str());
    s.append("\n");
    if health.transparent_enabled {
        s.append("Full anonymization: RUNNING  (t to stop)");
    } else {
        s.append("Full anonymization: stopped  (t to start)");
    }
    s
}

/// How long ago a time was, seen from `now` (both in nanoseconds).
pub open spec fn time_text(t: Option<u128>, now: u128) -> Seq<char> {
    match t {
        None => "never"@,
        Some(t) => if t <= now {
            text::decimal_text(((now - t) / 1_000_000_000) as nat) + "s ago"@
        } else {
            "just now"@
        },
    }
}

/// How long ago a time was, seen from `now` (both in nanoseconds).
pub fn format_system_time(t: Option<u128>, now: u128) -> (s: String)
    ensures
        s@ == time_text(t, now),
{
    match t {
        None => "never".to_owned(),
        Some(t) => {
            if t <= now {
                let mut s = text::decimal((now - t) / 1_000_000_000);
                s.append("s ago");
                s
            } else {
                "just now".to_owned()
            }
        },
    }
}

/// The bridge panel.
pub open spec fn bridge_panel(health: HealthStatus, now: u128) -> Seq<char> {
    "active bridge:       "@ + (match health.active_bridge_line {
        Some(line) => line@,
        None => "(direct, no bridge)"@,
    }) + "\nconsecutive failures: "@ + text::decimal_text(health.consecutive_failures as nat)
        + "\ntotal failovers:      "@ + text::decimal_text(health.total_switches as nat)
        + "\nlast check:           "@ + time_text(health.last_check_at, now)
        + "\nlast switch:          "@ + time_text(health.last_switch_at, now)
}

/// The bridge panel.
pub fn bridge_text(health: &HealthStatus, now: u128) -> (s: String)
    ensures
        s@ == bridge_panel(*health, now),
{
    let mut s = "active bridge:       ".to_owned();
    match &health.active_bridge_line {
        Some(line) => {
            s.append(line.as_str());
        },
        None => {
            s.append("(direct, no bridge)");
        },
    }
    s.append("\nconsecutive failures: ");
    s.append(text::decimal(health.consecutive_failures as u128).as_str());
    s.append("\ntotal failovers:      ");
    s.append(text::decimal(health.total_switches as u128).as_str());
    s.append("\nlast check:           ");
    s.append(format_system_time(health.last_check_at, now).as_str());
    s.append("\nlast switch:          ");
    s.append(format_system_time(health.last_switch_at, now).as_str());
    s
}

/// The latencies of the sparkline: that of each check, 0 for a failed one.
pub open spec fn latencies(history: Seq<HealthSample>) -> Seq<u64> {
    history.map_values(
        |h: HealthSample|
            if h.success {
                h.latency_ms
            } else {
                0
            },
    )
}

/// The latencies of the sparkline.
pub fn sparkline_data(history: &Vec<HealthSample>) -> (data: Vec<u64>)
    ensures
        data@ == latencies(history@),
{
    let mut data: Vec<u64> = Vec::new();
    let mut i: usize = 0;
    while i < history.len()
        invariant
            i <= history@.len(),
            data@ == latencies(history@.take(i as int)),
        decreases history@.len() - i,
    {
        let ghost before = data@;
        data.push(
            if history[i].success {
                history[i].latency_ms
            } else {
                0
            },
        );
        proof {
            assert(history@.take(i + 1) == history@.take(i as int).push(history@[i as int]));
            assert(latencies(history@.take(i + 1)) == before.push(data@.last()));
        }
        i = i + 1;
    }
    assert(history@.take(i as int) == history@);
    data
}

/// The cells of a bridge's row: its place (marked if it is the active one),
/// its line, whether its last check passed, and how long that took.
pub open spec fn candidate_cell_texts(c: CandidateStatus, active: Option<usize>) -> Seq<Seq<char>> {
    seq![
        (if active == Some(c.index) {
            "*"@
        } else {
            " "@
        }) + text::decimal_text(c.index as nat),
        c.line@,
        match c.last_success {
            Some(true) => "ok"@,
            Some(false) => "FAIL"@,
            None => "-"@,
        },
        match c.last_latency_ms {
            Some(ms) => text::decimal_text(ms as nat) + "ms"@,
            None => "-"@,
        },
    ]
}

/// The cells of a bridge's row.
pub fn candidate_cells(c: &CandidateStatus, active: Option<usize>) -> (cells: Vec<String>)
    ensures
        text::texts(cells@) == candidate_cell_texts(*c, active),
{
    let marked = match active {
        Some(i) => i == c.index,
        None => false,
    };
    let mut place = if marked {
        "*".to_owned()
    } else {
        " ".to_owned()
    };
    place.append(text::decimal(c.index as u128).as_str());
    let status = match c.last_success {
        Some(true) => "ok".to_owned(),
        Some(false) => "FAIL".to_owned(),
        None => "-".to_owned(),
    };
    let latency = match c.last_latency_ms {
        Some(ms) => {
            let mut s = text::decimal(ms as u128);
            s.append("ms");
            s
        },
        None => "-".to_owned(),
    };
    let mut cells: Vec<String> = Vec::new();
    cells.push(place);
    cells.push(c.line.clone());
    cells.push(status);
    cells.push(latency);
    assert(text::texts(cells@) == candidate_cell_texts(*c, active));
    cells
}

/// The title of the candidates panel.
pub open spec fn candidates_heading(count: nat) -> Seq<char> {
    "Bridge candidates ("@ + text::decimal_text(count) + ", * = active)"@
}

/// The title of the candidates panel.
pub fn candidates_title(count: usize) -> (s: String)
    ensures
        s@ == candidates_heading(count as nat),
{
    let mut s = "Bridge candidates (".to_owned();
    s.append(text::decimal(count as u128).as_str());
    s.append(", * = active)");
    s
}

/// The title of the isolation panel.
pub open spec fn isolation_heading(count: nat) -> Seq<char> {
    "Isolation buckets ("@ + text::decimal_text(count) + ")"@
}

/// The title of the isolation panel.
pub fn isolation_title(count: usize) -> (s: String)
    ensures
        s@ == isolation_heading(count as nat),
{
    let mut s = "Isolation buckets (".to_owned();
    s.append(text::decimal(count as u128).as_str());
    s.append(")");
    s
}

/// The cells of an isolation bucket's row: its identity, how often it was
/// used, and its age.
pub open spec fn isolation_cell_texts(identity: Seq<char>, uses: nat, age_secs: nat) -> Seq<
    Seq<char>,
> {
    seq![identity, text::decimal_text(uses), text::decimal_text(age_secs) + "s"@]
}

/// The cells of an isolation bucket's row.
pub fn isolation_cells(identity: &str, uses: u32, age_secs: u64) -> (cells: Vec<String>)
    ensures
        text::texts(cells@) == isolation_cell_texts(identity@, uses as nat, age_secs as nat),
{
    let mut age = text::decimal(age_secs as u128);
    age.append("s");
    let mut cells: Vec<String> = Vec::new();
    cells.push(identity.to_owned());
    cells.push(text::decimal(uses as u128));
    cells.push(age);
    assert(text::texts(cells@) == isolation_cell_texts(
        identity@,
        uses as nat,
        age_secs as nat,
    ));
    cells
}

/// How a kill switch's state is named; `None` if it could not be told.
pub open spec fn switch_label(enabled: Option<bool>) -> Seq<char> {
    match enabled {
        Some(true) => "ENABLED"@,
        Some(false) => "disabled"@,
        None => "unknown (needs root)"@,
    }
}

fn label(enabled: Option<bool>) -> (s: &'static str)
    ensures
        s@ == switch_label(enabled),
{
    match enabled {
        Some(true) => "ENABLED",
        Some(false) => "disabled",
        None => "unknown (needs root)",
    }
}

/// The kill switch panel.
pub open spec fn switches_panel(scoped: Option<bool>, radical: Option<bool>) -> Seq<char> {
    "scoped: "@ + switch_label(scoped) + "    radical: "@ + switch_label(radical)
}

/// The kill switch panel.
pub fn killswitch_text(scoped: Option<bool>, radical: Option<bool>) -> (s: String)
    ensures
        s@ == switches_panel(scoped, radical),
{
    let mut s = "scoped: ".to_owned();
    s.append(label(scoped));
    s.append("    radical: ");
    s.append(label(radical));
    s
}

/// The last `n` of a list, or all if there are fewer.
pub open spec fn last_of(list: Seq<Seq<char>>, n: nat) -> Seq<Seq<char>> {
    if list.len() <= n {
        list
    } else {
        list.skip(list.len() - n)
    }
}

/// The last `n` lines of a log.
pub fn tail_log(contents: &str, n: usize) -> (tail: Vec<String>)
    ensures
        text::texts(tail@) == last_of(text::lines_of(contents@), n as nat),
{
    let lines = text::lines(contents);
    let total: usize = lines.len();
    let start: usize = if total <= n {
        0
    } else {
        total - n
    };
    let ghost all = text::texts(lines@);
    let mut tail: Vec<String> = Vec::new();
    let mut i: usize = start;
    while i < total
        invariant
            start <= i <= total,
            total == lines@.len(),
            all == text::texts(lines@),
            text::texts(tail@) == all.subrange(start as int, i as int),
        decreases total - i,
    {
        let ghost before = text::texts(tail@);
        tail.push(lines[i].clone());
        assert(text::texts(tail@) == before.push(all[i as int]));
        i = i + 1;
    }
    assert(all.subrange(start as int, total as int) == last_of(all, n as nat));
    tail
}

/// The bottom line: what is being typed, else the last error, else the last
/// message.
pub open spec fn bottom_line(s: Screen, last_error: Option<Seq<char>>) -> Seq<char> {
    match s.mode {
        ModeView::AddBridge(buffer) => "add bridge> "@ + buffer + "\u{2588}"@,
        ModeView::EnterScopedUid(buffer) => "scoped kill switch, protect uid> "@ + buffer
            + "\u{2588}"@,
        ModeView::EnterDnsAddr(buffer) => "DNS shim bind address> "@ + buffer + "\u{2588}"@,
        _ => match last_error {
            Some(e) => "ERROR: "@ + e,
            None => s.status,
        },
    }
}

/// The message of an error report.
pub open spec fn report_text(report: Option<ErrorReport>) -> Option<Seq<char>> {
    match report {
        Some(r) => Some(r.message@),
        None => None,
    }
}

impl Dashboard {
    /// The bottom line.
    pub fn status_text(&self, last_error: &Option<ErrorReport>) -> (s: String)
        ensures
            s@ == bottom_line(self@, report_text(*last_error)),
    {
        match &self.mode {
            Mode::AddBridge { buffer } => {
                let mut s = "add bridge> ".to_owned();
                s.append(buffer.as_str());
                s.append("\u{2588}");
                s
            },
            Mode::EnterScopedUid { buffer } => {
                let mut s = "scoped kill switch, protect uid> ".to_owned();
                s.append(buffer.as_str());
                s.append("\u{2588}");
                s
            },
            Mode::EnterDnsAddr { buffer } => {
                let mut s = "DNS shim bind address> ".to_owned();
                s.append(buffer.as_str());
                s.append("\u{2588}");
                s
            },
            _ => match last_error {
                Some(r) => {
                    let mut s = "ERROR: ".to_owned();
                    s.append(r.message.as_str());
                    s
                },
                None => self.status_line.clone(),
            },
        }
    }
}

// ---------------------------------------------------------------------------
// Laws.
// ---------------------------------------------------------------------------
/// The radical kill switch is enabled only by `y` at its confirmation.
pub proof fn radical_needs_confirmation(s: Screen, key: Key, anonymizing: bool)
    ensures
        pressed(s, key, anonymizing).1 == Effect::EnableRadical <==> s.mode
            == ModeView::ConfirmRadicalEnable && key == Key::Char('y'),
{
}

/// A radical kill switch that was enabled from the dashboard is lifted again:
/// once enabled, what follows is a wait of 300 seconds and then disabling the
/// same switch; if it could not be enabled, nothing follows.
pub proof fn radical_is_lifted_again(plan: EnablePlan, enabled: bool, waited: bool)
    requires
        plan.ttl_secs == Some(RADICAL_TTL_SECS),
    ensures
        ({
            let first = TimedStep::Enable { switch: plan.switch, ttl_secs: plan.ttl_secs };
            let second = cli::timed_step_after(first, enabled);
            let third = cli::timed_step_after(second, waited);
            if enabled {
                second == (TimedStep::Wait { switch: plan.switch, secs: 300 }) && third == (
                TimedStep::Disable { switch: plan.switch })
            } else {
                second == TimedStep::Done
            }
        }),
{
}

/// Full anonymization is enabled only by `y` at its confirmation, and disabled
/// by one key.
pub proof fn full_anonymization_needs_confirmation(s: Screen, key: Key, anonymizing: bool)
    ensures
        pressed(s, key, anonymizing).1 == Effect::EnableFullAnon <==> s.mode
            == ModeView::ConfirmFullAnon && key == Key::Char('y'),
        pressed(s, key, anonymizing).1 == Effect::DisableFullAnon <==> s.mode == ModeView::Normal
            && key == Key::Char('t') && anonymizing,
{
}

/// The two confirmations are reached only by asking for what they confirm:
/// `r` in the menu that `k` opens, and `t` while full anonymization is off.
pub proof fn confirmations_are_asked_for(s: Screen, key: Key, anonymizing: bool)
    requires
        s.mode != pressed(s, key, anonymizing).0.mode,
    ensures
        pressed(s, key, anonymizing).0.mode == ModeView::ConfirmRadicalEnable ==> s.mode
            == ModeView::KillSwitchMenu && key == Key::Char('r'),
        pressed(s, key, anonymizing).0.mode == ModeView::KillSwitchMenu ==> s.mode
            == ModeView::Normal && key == Key::Char('k'),
        pressed(s, key, anonymizing).0.mode == ModeView::ConfirmFullAnon ==> s.mode
            == ModeView::Normal && key == Key::Char('t') && !anonymizing,
{
}

/// The dashboard is left only from the commands, by `q` or Escape.
pub proof fn only_commands_quit(s: Screen, key: Key, anonymizing: bool)
    ensures
        pressed(s, key, anonymizing).1 == Effect::Quit <==> s.mode == ModeView::Normal && (key
            == Key::Esc || key == Key::Char('q')),
{
}

/// Outside the commands, Escape goes back to them and does nothing else.
pub proof fn escape_cancels(s: Screen, anonymizing: bool)
    requires
        s.mode != ModeView::Normal,
    ensures
        pressed(s, Key::Esc, anonymizing) == (
            (Screen { mode: ModeView::Normal, status: "cancelled"@, dns: s.dns }),
            Effect::Nothing,
        ),
{
}

/// Whether what is typed as a user is digits only.
pub open spec fn uid_is_digits(s: Screen) -> bool {
    s.mode matches ModeView::EnterScopedUid(buffer) ==> forall|i: int|
        0 <= i < buffer.len() ==> text::is_digit(#[trigger] buffer[i])
}

/// What is typed as a user stays digits only.
pub proof fn uid_stays_digits(s: Screen, key: Key, anonymizing: bool)
    requires
        uid_is_digits(s),
    ensures
        uid_is_digits(pressed(s, key, anonymizing).0),
{
}

} // verus!
