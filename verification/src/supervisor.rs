//! Supervision of a real `tor` process for transparent proxying: what it is
//! configured with, and what its output means.
use crate::paths;
use crate::text;
use vstd::prelude::*;
use vstd::string::*;

verus! {

/// How long `tor` may take to bootstrap, in seconds.
pub const START_TIMEOUT_SECS: u64 = 120;

/// The ports of the supervised `tor`.
#[derive(Debug, Clone, Copy, PartialEq, Eq, Structural)]
pub struct TorPorts {
    /// Where redirected TCP goes.
    pub trans_port: u16,
    /// Where redirected DNS goes.
    pub dns_port: u16,
    /// The control port.
    pub control_port: u16,
}

impl Default for TorPorts {
    fn default() -> (p: Self)
        ensures
            p == (TorPorts { trans_port: 9040, dns_port: 5300, control_port: 9051 }),
    {
        TorPorts { trans_port: 9040, dns_port: 5300, control_port: 9051 }
    }
}

/// The supervisor's own state.
#[derive(Debug)]
pub struct TorSupervisor {
    ports: TorPorts,
    data_dir: String,
    running: bool,
}

/// A [`TorSupervisor`] as a mathematical value.
pub struct Supervision {
    /// The ports.
    pub ports: TorPorts,
    /// Where `tor` keeps its data.
    pub data_dir: Seq<char>,
    /// Whether `tor` runs.
    pub running: bool,
}

impl View for TorSupervisor {
    type V = Supervision;

    closed spec fn view(&self) -> Supervision {
        Supervision { ports: self.ports, data_dir: self.data_dir@, running: self.running }
    }
}

/// What to write and where before `tor` is launched.
#[derive(Debug)]
pub struct StartPlan {
    /// The directory to create.
    pub data_dir: String,
    /// The configuration file.
    pub torrc_path: String,
    /// What it holds.
    pub torrc: String,
}

/// The configuration of `tor`.
pub open spec fn torrc_text(s: Supervision) -> Seq<char> {
    "SocksPort 0\nTransPort 127.0.0.1:"@ + text::decimal_text(s.ports.trans_port as nat)
        + "\nDNSPort 127.0.0.1:"@ + text::decimal_text(s.ports.dns_port as nat)
        + "\nControlPort 127.0.0.1:"@ + text::decimal_text(s.ports.control_port as nat)
        + "\nCookieAuthentication 1\nDataDirectory "@ + s.data_dir
        + "\nLog notice stdout\nRunAsDaemon 0\n"@
}

/// The file that holds the configuration of `tor`.
pub open spec fn torrc_file(data_dir: Seq<char>) -> Seq<char> {
    text::path_text(data_dir, "torrc"@)
}

/// The file that holds the control port's cookie.
pub open spec fn cookie_file(data_dir: Seq<char>) -> Seq<char> {
    text::path_text(data_dir, "control_auth_cookie"@)
}

/// What a line of `tor`'s output means.
#[derive(Debug, Clone, Copy, PartialEq, Eq, Structural)]
pub enum TorLine {
    /// It has bootstrapped.
    Bootstrapped,
    /// Something to warn of.
    Warning,
    /// Nothing of note.
    Quiet,
}

/// What a line of `tor`'s output means.
pub open spec fn line_meaning(line: Seq<char>) -> TorLine {
    if text::has_text(line, "Bootstrapped 100%"@) {
        TorLine::Bootstrapped
    } else if text::has_text(line, "[err]"@) || (text::has_text(line, "[warn]"@) && text::has_text(
        line,
        "Bootstrapped"@,
    )) {
        TorLine::Warning
    } else {
        TorLine::Quiet
    }
}

/// What a line of `tor`'s output means.
pub fn classify_line(line: &str) -> (m: TorLine)
    ensures
        m == line_meaning(line@),
{
    if text::contains(line, "Bootstrapped 100%") {
        TorLine::Bootstrapped
    } else if text::contains(line, "[err]") || (text::contains(line, "[warn]") && text::contains(
        line,
        "Bootstrapped",
    )) {
        TorLine::Warning
    } else {
        TorLine::Quiet
    }
}

/// How waiting for `tor` to bootstrap ended.
#[derive(Debug)]
pub enum StartEnd {
    /// It has bootstrapped.
    Bootstrapped,
    /// Its output ended first.
    Exited,
    /// Its output could not be read.
    Unreadable { error: String },
    /// Time ran out.
    TimedOut,
}

/// What went wrong, unless `tor` has bootstrapped.
pub open spec fn start_error(end: StartEnd) -> Option<Seq<char>> {
    match end {
        StartEnd::Bootstrapped => None,
        StartEnd::Exited => Some("tor exited before finishing bootstrap"@),
        StartEnd::Unreadable { error } => Some(error@),
        StartEnd::TimedOut => Some(
            "tor did not finish bootstrapping within "@ + text::decimal_text(
                START_TIMEOUT_SECS as nat,
            ) + "s"@,
        ),
    }
}

/// Supervision once waiting for `tor` to bootstrap has ended.
pub open spec fn after_start(s: Supervision, end: StartEnd) -> Supervision {
    Supervision { running: s.running || end is Bootstrapped, ..s }
}

/// Supervision once `tor` was stopped.
pub open spec fn after_stop(s: Supervision) -> Supervision {
    Supervision { running: false, ..s }
}

impl TorSupervisor {
    /// `tor` does not run yet.
    pub fn new(ports: TorPorts, user_data_dir: &Option<String>) -> (s: Self)
        ensures
            s@ == (Supervision {
                ports,
                data_dir: paths::data_file_text(
                    text::opt_text(*user_data_dir),
                    "tor-transparent"@,
                ),
                running: false,
            }),
    {
        TorSupervisor {
            ports,
            data_dir: paths::data_file(user_data_dir, "tor-transparent"),
            running: false,
        }
    }

    /// The ports.
    pub fn ports(&self) -> (p: TorPorts)
        ensures
            p == self@.ports,
    {
        self.ports
    }

    /// The file that holds the control port's cookie.
    pub fn cookie_path(&self) -> (path: String)
        ensures
            path@ == cookie_file(self@.data_dir),
    {
        text::path_join(self.data_dir.as_str(), "control_auth_cookie")
    }

    /// Whether `tor` runs.
    pub fn is_running(&self) -> (r: bool)
        ensures
            r == self@.running,
    {
        self.running
    }

    /// What to do to start `tor`; an error if it runs already.
    pub fn begin_start(&self) -> (res: Result<StartPlan, String>)
        ensures
            match res {
                Ok(p) => !self@.running && p.data_dir@ == self@.data_dir && p.torrc_path@
                    == torrc_file(self@.data_dir) && p.torrc@ == torrc_text(self@),
                Err(e) => self@.running && e@ == "tor is already running"@,
            },
    {
        if self.running {
            return Err("tor is already running".to_owned());
        }
        let mut torrc = "SocksPort 0\nTransPort 127.0.0.1:".to_owned();
        torrc.append(text::decimal(self.ports.trans_port as u128).as_str());
        torrc.append("\nDNSPort 127.0.0.1:");
        torrc.append(text::decimal(self.ports.dns_port as u128).as_str());
        torrc.append("\nControlPort 127.0.0.1:");
        torrc.append(text::decimal(self.ports.control_port as u128).as_str());
        torrc.append("\nCookieAuthentication 1\nDataDirectory ");
        torrc.append(self.data_dir.as_str());
        torrc.append("\nLog notice stdout\nRunAsDaemon 0\n");
        Ok(
            StartPlan {
                data_dir: self.data_dir.clone(),
                torrc_path: text::path_join(self.data_dir.as_str(), "torrc"),
                torrc,
            },
        )
    }

    /// Waiting for `tor` to bootstrap has ended. On an error the process is to
    /// be killed.
    pub fn finish_start(&mut self, end: StartEnd) -> (res: Result<(), String>)
        ensures
            match res {
                Ok(_) => start_error(end) is None,
                Err(e) => start_error(end) == Some(e@),
            },
            final(self)@ == after_start(old(self)@, end),
    {
        match end {
            StartEnd::Bootstrapped => {
                self.running = true;
                Ok(())
            },
            StartEnd::Exited => Err("tor exited before finishing bootstrap".to_owned()),
            StartEnd::Unreadable { error } => Err(error),
            StartEnd::TimedOut => {
                let mut e = "tor did not finish bootstrapping within ".to_owned();
                e.append(text::decimal(START_TIMEOUT_SECS as u128).as_str());
                e.append("s");
                Err(e)
            },
        }
    }

    /// `tor` is to stop. Returns whether there is a process to kill.
    pub fn stop(&mut self) -> (was_running: bool)
        ensures
            was_running == old(self)@.running,
            final(self)@ == after_stop(old(self)@),
    {
        let was_running = self.running;
        self.running = false;
        was_running
    }
}

} // verus!
