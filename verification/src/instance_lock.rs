//! Single-instance guard: a previous instance that still runs is stopped, by
//! SIGTERM and then by SIGKILL, before a new one takes over.
//!
//! The takeover is told whether the old process is alive, and says what to do.
use crate::text;
use vstd::prelude::*;
use vstd::string::*;

verus! {

/// How often the old process is looked at after SIGTERM.
pub const TERM_POLLS: u32 = 50;

/// How often the old process is looked at after SIGKILL.
pub const KILL_POLLS: u32 = 20;

/// How long to wait between two looks, in milliseconds.
pub const POLL_MS: u64 = 100;

/// The process that a lock file names.
pub open spec fn pid_of(contents: Option<Seq<char>>) -> Option<u32> {
    match contents {
        Some(c) => text::u32_of(text::trim_text(c)),
        None => None,
    }
}

/// The process that a lock file names; `None` if there is no readable file or
/// it names none.
pub fn previous_pid(contents: &Option<String>) -> (pid: Option<u32>)
    ensures
        pid == pid_of(text::opt_text(*contents)),
{
    match contents {
        Some(c) => text::parse_u32(text::trim(c.as_str()).as_str()),
        None => None,
    }
}

/// The path that exists while a process is alive.
pub open spec fn process_path_text(pid: u32) -> Seq<char> {
    "/proc/"@ + text::decimal_text(pid as nat)
}

/// The path that exists while a process is alive.
pub fn process_path(pid: u32) -> (path: String)
    ensures
        path@ == process_path_text(pid),
{
    let mut path = "/proc/".to_owned();
    path.append(text::decimal(pid as u128).as_str());
    path
}

/// The argument that makes `kill` signal a whole process group.
pub open spec fn group_text(pid: u32) -> Seq<char> {
    "-"@ + text::decimal_text(pid as nat)
}

/// The argument that makes `kill` signal a whole process group.
pub fn group_argument(pid: u32) -> (arg: String)
    ensures
        arg@ == group_text(pid),
{
    let mut arg = "-".to_owned();
    arg.append(text::decimal(pid as u128).as_str());
    arg
}

/// How far a takeover is.
#[derive(Debug, Clone, Copy, PartialEq, Eq, Structural)]
pub enum Stage {
    /// Before anything was done.
    First,
    /// After SIGTERM and this many waits.
    Terminated(u32),
    /// Looking once more after SIGTERM.
    TermVerdict,
    /// After SIGKILL and this many waits.
    Killed(u32),
    /// Looking once more after SIGKILL.
    KillVerdict,
}

/// What a takeover does next.
#[derive(Debug, Clone, Copy, PartialEq, Eq, Structural)]
pub enum Move {
    /// Nothing is in the way: write the lock file.
    Proceed,
    /// The old process is gone: write the lock file.
    Stopped,
    /// Send SIGTERM to the process group, and look again.
    SendTerm,
    /// Send SIGKILL to the process group, and look again.
    SendKill,
    /// Wait, and look again.
    Wait,
    /// Look again at once.
    Look,
    /// Give up.
    GiveUp,
}

/// What follows a look at the old process: the next stage, and what to do.
pub open spec fn looked(stage: Stage, alive: bool) -> (Stage, Move) {
    match stage {
        Stage::First => if alive {
            (Stage::Terminated(0), Move::SendTerm)
        } else {
            (stage, Move::Proceed)
        },
        Stage::Terminated(n) => if alive && n + 1 < TERM_POLLS {
            (Stage::Terminated((n + 1) as u32), Move::Wait)
        } else if alive {
            (Stage::TermVerdict, Move::Wait)
        } else {
            (Stage::TermVerdict, Move::Look)
        },
        Stage::TermVerdict => if alive {
            (Stage::Killed(0), Move::SendKill)
        } else {
            (stage, Move::Stopped)
        },
        Stage::Killed(n) => if alive && n + 1 < KILL_POLLS {
            (Stage::Killed((n + 1) as u32), Move::Wait)
        } else if alive {
            (Stage::KillVerdict, Move::Wait)
        } else {
            (Stage::KillVerdict, Move::Look)
        },
        Stage::KillVerdict => if alive {
            (stage, Move::GiveUp)
        } else {
            (stage, Move::Stopped)
        },
    }
}

/// A takeover from a previous instance.
#[derive(Debug)]
pub struct Takeover {
    /// The old process.
    pub pid: u32,
    /// How far the takeover is.
    pub stage: Stage,
}

impl Takeover {
    /// Begins a takeover from a process.
    pub fn new(pid: u32) -> (t: Self)
        ensures
            t.pid == pid,
            t.stage == Stage::First,
    {
        Takeover { pid, stage: Stage::First }
    }

    /// The old process was looked at.
    pub fn on_look(&mut self, alive: bool) -> (next: Move)
        ensures
            final(self).pid == old(self).pid,
            (final(self).stage, next) == looked(old(self).stage, alive),
    {
        match self.stage {
            Stage::First => {
                if alive {
                    self.stage = Stage::Terminated(0);
                    Move::SendTerm
                } else {
                    Move::Proceed
                }
            },
            Stage::Terminated(n) => {
                if alive {
                    self.stage = if n < TERM_POLLS - 1 {
                        Stage::Terminated(n + 1)
                    } else {
                        Stage::TermVerdict
                    };
                    Move::Wait
                } else {
                    self.stage = Stage::TermVerdict;
                    Move::Look
                }
            },
            Stage::TermVerdict => {
                if alive {
                    self.stage = Stage::Killed(0);
                    Move::SendKill
                } else {
                    Move::Stopped
                }
            },
            Stage::Killed(n) => {
                if alive {
                    self.stage = if n < KILL_POLLS - 1 {
                        Stage::Killed(n + 1)
                    } else {
                        Stage::KillVerdict
                    };
                    Move::Wait
                } else {
                    self.stage = Stage::KillVerdict;
                    Move::Look
                }
            },
            Stage::KillVerdict => {
                if alive {
                    Move::GiveUp
                } else {
                    Move::Stopped
                }
            },
        }
    }

    /// What is said when something is done.
    pub fn message(&self, next: Move) -> (s: Option<String>)
        ensures
            text::opt_text(s) == move_text(self.pid, next),
    {
        match next {
            Move::SendTerm => {
                let mut s = "a previous anonet instance is still running (PID ".to_owned();
                s.append(text::decimal(self.pid as u128).as_str());
                s.append("); stopping it...");
                Some(s)
            },
            Move::SendKill => {
                let mut s = "PID ".to_owned();
                s.append(text::decimal(self.pid as u128).as_str());
                s.append(" ignored SIGTERM; sending SIGKILL...");
                Some(s)
            },
            Move::Stopped => Some("previous instance stopped, continuing".to_owned()),
            Move::GiveUp => {
                let mut s = "PID ".to_owned();
                s.append(text::decimal(self.pid as u128).as_str());
                s.append(" would not die even after SIGKILL; stop it manually and retry.");
                Some(s)
            },
            Move::Proceed | Move::Wait | Move::Look => None,
        }
    }
}

/// What is said when something is done.
pub open spec fn move_text(pid: u32, next: Move) -> Option<Seq<char>> {
    let number = text::decimal_text(pid as nat);
    match next {
        Move::SendTerm => Some(
            "a previous anonet instance is still running (PID "@ + number + "); stopping it..."@,
        ),
        Move::SendKill => Some("PID "@ + number + " ignored SIGTERM; sending SIGKILL..."@),
        Move::Stopped => Some("previous instance stopped, continuing"@),
        Move::GiveUp => Some(
            "PID "@ + number + " would not die even after SIGKILL; stop it manually and retry."@,
        ),
        _ => None,
    }
}

// ---------------------------------------------------------------------------
// Laws.
// ---------------------------------------------------------------------------
/// Whether a move ends a takeover.
pub open spec fn is_end(m: Move) -> bool {
    m == Move::Proceed || m == Move::Stopped || m == Move::GiveUp
}

/// The lock file is written only when the old process was just seen to be
/// gone, and given up on only when it was just seen to be alive.
pub proof fn takeover_needs_a_dead_process(stage: Stage, alive: bool)
    ensures
        looked(stage, alive).1 == Move::Proceed || looked(stage, alive).1 == Move::Stopped
            ==> !alive,
        looked(stage, alive).1 == Move::GiveUp ==> alive,
{
}

/// SIGKILL is sent only to a process that outlived SIGTERM.
pub proof fn kill_comes_after_term(stage: Stage, alive: bool)
    requires
        looked(stage, alive).1 == Move::SendKill,
    ensures
        alive,
        stage == Stage::TermVerdict,
{
}

/// How many looks are left at most.
pub open spec fn looks_left(stage: Stage) -> int {
    match stage {
        Stage::First => TERM_POLLS + KILL_POLLS + 3,
        Stage::Terminated(n) => TERM_POLLS - n + KILL_POLLS + 2,
        Stage::TermVerdict => KILL_POLLS + 2,
        Stage::Killed(n) => KILL_POLLS - n + 1,
        Stage::KillVerdict => 1,
    }
}

/// Whether a stage can be reached.
pub open spec fn reachable(stage: Stage) -> bool {
    match stage {
        Stage::Terminated(n) => n < TERM_POLLS,
        Stage::Killed(n) => n < KILL_POLLS,
        _ => true,
    }
}

/// A takeover ends, after at most 73 looks: at most 50 waits after SIGTERM and
/// at most 20 after SIGKILL.
pub proof fn takeover_ends(stage: Stage, alive: bool)
    requires
        reachable(stage),
    ensures
        reachable(looked(stage, alive).0),
        0 < looks_left(stage) <= 73,
        !is_end(looked(stage, alive).1) ==> looks_left(looked(stage, alive).0) < looks_left(stage),
{
}

} // verus!
