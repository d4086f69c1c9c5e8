//! Full anonymization: a supervised `tor`, the redirection to it, and the
//! radical kill switch as a fail-safe, switched on and off as one.
//!
//! Enabling is a sequence of steps. A step that fails undoes those before it.
use crate::killswitch::KillSwitch;
use crate::redirect::TransparentRedirect;
use crate::supervisor::TorPorts;
use crate::telemetry::HealthStatus;
use vstd::prelude::*;

verus! {

/// The next thing to do while enabling.
#[derive(Debug)]
pub enum EnableStep {
    /// Start `tor` and wait for it to bootstrap.
    StartTor { uid: u32 },
    /// Redirect traffic to it.
    EnableRedirect { uid: u32 },
    /// Enable the radical kill switch.
    EnableRadical { uid: u32 },
    /// Lift the redirection again, because of an error.
    UndoRedirect { uid: u32, error: String },
    /// Stop `tor` again, because of an error.
    UndoTor { error: String },
    /// Everything is on.
    Done,
    /// Enabling has failed.
    Failed { error: String },
}

/// What follows a step.
pub open spec fn step_after(step: EnableStep, outcome: Result<(), String>) -> EnableStep {
    match step {
        EnableStep::StartTor { uid } => match outcome {
            Ok(_) => EnableStep::EnableRedirect { uid },
            Err(error) => EnableStep::Failed { error },
        },
        EnableStep::EnableRedirect { uid } => match outcome {
            Ok(_) => EnableStep::EnableRadical { uid },
            Err(error) => EnableStep::UndoTor { error },
        },
        EnableStep::EnableRadical { uid } => match outcome {
            Ok(_) => EnableStep::Done,
            Err(error) => EnableStep::UndoRedirect { uid, error },
        },
        EnableStep::UndoRedirect { error, .. } => EnableStep::UndoTor { error },
        EnableStep::UndoTor { error } => EnableStep::Failed { error },
        EnableStep::Done => EnableStep::Done,
        EnableStep::Failed { error } => EnableStep::Failed { error },
    }
}

/// The first step, once the process's own user was read.
pub fn begin_enable(uid: Result<u32, String>) -> (step: EnableStep)
    ensures
        step == match uid {
            Ok(uid) => EnableStep::StartTor { uid },
            Err(error) => EnableStep::Failed { error },
        },
{
    match uid {
        Ok(uid) => EnableStep::StartTor { uid },
        Err(error) => EnableStep::Failed { error },
    }
}

/// What follows a step.
pub fn advance(step: EnableStep, outcome: Result<(), String>) -> (next: EnableStep)
    ensures
        next == step_after(step, outcome),
{
    match step {
        EnableStep::StartTor { uid } => match outcome {
            Ok(_) => EnableStep::EnableRedirect { uid },
            Err(error) => EnableStep::Failed { error },
        },
        EnableStep::EnableRedirect { uid } => match outcome {
            Ok(_) => EnableStep::EnableRadical { uid },
            Err(error) => EnableStep::UndoTor { error },
        },
        EnableStep::EnableRadical { uid } => match outcome {
            Ok(_) => EnableStep::Done,
            Err(error) => EnableStep::UndoRedirect { uid, error },
        },
        EnableStep::UndoRedirect { error, .. } => EnableStep::UndoTor { error },
        EnableStep::UndoTor { error } => EnableStep::Failed { error },
        EnableStep::Done => EnableStep::Done,
        EnableStep::Failed { error } => EnableStep::Failed { error },
    }
}

/// The next thing to do while disabling. Each is done whatever came of those
/// before it.
#[derive(Debug, Clone, Copy, PartialEq, Eq, Structural)]
pub enum DisableStep {
    /// Lift the redirection.
    LiftRedirect,
    /// Lift the radical kill switch.
    LiftRadical,
    /// Stop `tor`.
    StopTor,
    /// Everything was tried.
    Done,
}

/// What follows a step of disabling.
pub open spec fn disable_step_after(step: DisableStep) -> DisableStep {
    match step {
        DisableStep::LiftRedirect => DisableStep::LiftRadical,
        DisableStep::LiftRadical => DisableStep::StopTor,
        DisableStep::StopTor => DisableStep::Done,
        DisableStep::Done => DisableStep::Done,
    }
}

/// The first step of disabling.
pub fn begin_disable() -> (step: DisableStep)
    ensures
        step == DisableStep::LiftRedirect,
{
    DisableStep::LiftRedirect
}

/// What follows a step of disabling.
pub fn advance_disable(step: DisableStep) -> (next: DisableStep)
    ensures
        next == disable_step_after(step),
{
    match step {
        DisableStep::LiftRedirect => DisableStep::LiftRadical,
        DisableStep::LiftRadical => DisableStep::StopTor,
        DisableStep::StopTor => DisableStep::Done,
        DisableStep::Done => DisableStep::Done,
    }
}

/// What full anonymization is made with.
#[derive(Debug, Clone, Copy)]
pub struct FullAnonController {
    /// The ports of the supervised `tor`.
    pub ports: TorPorts,
}

/// The redirection to a `tor` with these ports, for everyone but a user.
pub open spec fn redirect_to(ports: TorPorts, anonet_uid: u32) -> TransparentRedirect {
    TransparentRedirect {
        anonet_uid,
        trans_port: ports.trans_port,
        dns_port: ports.dns_port,
    }
}

/// The health status once enabling has come to a step: it is on, it has failed, or
/// it goes on.
pub open spec fn step_reported(
    before: HealthStatus,
    after: HealthStatus,
    step: EnableStep,
    now: u128,
) -> bool {
    match step {
        EnableStep::Done => after == (HealthStatus { transparent_enabled: true, ..before }),
        EnableStep::Failed { error } => {
            &&& after.last_error matches Some(r) && r.at == now && r.message@ == error@
            &&& after == (HealthStatus { last_error: after.last_error, ..before })
        },
        _ => after == before,
    }
}

impl FullAnonController {
    /// With the default ports.
    pub fn new() -> (c: Self)
        ensures
            c.ports == (TorPorts { trans_port: 9040, dns_port: 5300, control_port: 9051 }),
    {
        FullAnonController { ports: TorPorts::default() }
    }

    /// The redirection.
    pub fn redirect(&self, anonet_uid: u32) -> (r: TransparentRedirect)
        ensures
            r == redirect_to(self.ports, anonet_uid),
    {
        TransparentRedirect {
            anonet_uid,
            trans_port: self.ports.trans_port,
            dns_port: self.ports.dns_port,
        }
    }

    /// The kill switch.
    pub fn fail_safe(&self, anonet_uid: u32) -> (k: KillSwitch)
        ensures
            k == (KillSwitch::Radical { anonet_uid }),
    {
        KillSwitch::Radical { anonet_uid }
    }

    /// The user that disabling names: the process's own, or 0 if it could not
    /// be read. Tables are removed by their names, whoever the user is.
    pub fn disable_uid(&self, uid: Result<u32, String>) -> (r: u32)
        ensures
            r == match uid {
                Ok(u) => u,
                Err(_) => 0,
            },
    {
        match uid {
            Ok(u) => u,
            Err(_) => 0,
        }
    }

    /// Someone asks for full anonymization: the last error no longer counts.
    pub fn on_enable_requested(&self, status: &mut HealthStatus)
        ensures
            *final(status) == (HealthStatus { last_error: None, ..*old(status) }),
    {
        status.clear_error();
    }

    /// Enabling is over, or goes on: reports success or the error.
    pub fn on_step(&self, status: &mut HealthStatus, step: &EnableStep, now: u128)
        ensures
            step_reported(*old(status), *final(status), *step, now),
    {
        match step {
            EnableStep::Done => {
                status.transparent_enabled = true;
            },
            EnableStep::Failed { error } => {
                status.record_error(now, error.clone());
            },
            _ => {},
        }
    }

    /// Full anonymization was switched off.
    pub fn on_disabled(&self, status: &mut HealthStatus)
        ensures
            *final(status) == (HealthStatus { transparent_enabled: false, ..*old(status) }),
    {
        status.transparent_enabled = false;
    }
}

// ---------------------------------------------------------------------------
// Laws.
// ---------------------------------------------------------------------------
/// What is on.
pub struct Pieces {
    /// The supervised `tor`.
    pub tor: bool,
    /// The redirection.
    pub redirect: bool,
    /// The radical kill switch.
    pub radical: bool,
    /// Whether lifting the redirection was tried and failed.
    pub stuck: bool,
}

/// What is on once a step was performed. Starting `tor` and applying rules do
/// all or nothing; stopping `tor` always works.
pub open spec fn performed(p: Pieces, step: EnableStep, ok: bool) -> Pieces {
    match step {
        EnableStep::StartTor { .. } => Pieces { tor: p.tor || ok, ..p },
        EnableStep::EnableRedirect { .. } => Pieces { redirect: p.redirect || ok, ..p },
        EnableStep::EnableRadical { .. } => Pieces { radical: p.radical || ok, ..p },
        EnableStep::UndoRedirect { .. } => Pieces {
            redirect: p.redirect && !ok,
            stuck: p.stuck || !ok,
            ..p
        },
        EnableStep::UndoTor { .. } => Pieces { tor: false, ..p },
        _ => p,
    }
}

/// What is on when a step is about to be performed.
pub open spec fn fits(p: Pieces, step: EnableStep) -> bool {
    match step {
        EnableStep::StartTor { .. } => !p.tor && !p.redirect && !p.radical && !p.stuck,
        EnableStep::EnableRedirect { .. } => p.tor && !p.redirect && !p.radical && !p.stuck,
        EnableStep::EnableRadical { .. } => p.tor && p.redirect && !p.radical && !p.stuck,
        EnableStep::UndoRedirect { .. } => p.tor && p.redirect && !p.radical && !p.stuck,
        EnableStep::UndoTor { .. } => p.tor && !p.radical && p.redirect == p.stuck,
        EnableStep::Done => p.tor && p.redirect && p.radical,
        EnableStep::Failed { .. } => !p.tor && !p.radical && p.redirect == p.stuck,
    }
}

/// Each step finds on what it expects, if the one before did: begun with
/// everything off, enabling ends with everything on or with everything off,
/// but for a redirection that could not be lifted.
pub proof fn enabling_is_all_or_nothing(p: Pieces, step: EnableStep, outcome: Result<(), String>)
    requires
        fits(p, step),
    ensures
        fits(performed(p, step, outcome is Ok), step_after(step, outcome)),
{
}

/// What is on once a step of disabling was performed.
pub open spec fn undone(p: Pieces, step: DisableStep, ok: bool) -> Pieces {
    match step {
        DisableStep::LiftRedirect => Pieces {
            redirect: p.redirect && !ok,
            stuck: if ok {
                false
            } else {
                p.stuck
            },
            ..p
        },
        DisableStep::LiftRadical => Pieces { radical: p.radical && !ok, ..p },
        DisableStep::StopTor => Pieces { tor: false, ..p },
        DisableStep::Done => p,
    }
}

/// What is on after all of disabling, whose removals come out as given.
pub open spec fn all_undone(p: Pieces, redirect_ok: bool, radical_ok: bool) -> Pieces {
    let first = DisableStep::LiftRedirect;
    let second = disable_step_after(first);
    let third = disable_step_after(second);
    undone(undone(undone(p, first, redirect_ok), second, radical_ok), third, true)
}

/// Whatever is on, disabling stops `tor`, and leaves nothing on if the rules
/// can be removed; a removal that fails does not keep the others from being
/// tried. Disabling again changes nothing.
pub proof fn disabling_turns_everything_off(p: Pieces, redirect_ok: bool, radical_ok: bool)
    ensures
        !all_undone(p, redirect_ok, radical_ok).tor,
        redirect_ok ==> !all_undone(p, redirect_ok, radical_ok).redirect,
        radical_ok ==> !all_undone(p, redirect_ok, radical_ok).radical,
        all_undone(all_undone(p, redirect_ok, radical_ok), redirect_ok, radical_ok) == all_undone(
            p,
            redirect_ok,
            radical_ok,
        ),
        disable_step_after(DisableStep::StopTor) == DisableStep::Done,
{
}

/// How many steps are left at most.
pub open spec fn steps_left(step: EnableStep) -> nat {
    match step {
        EnableStep::StartTor { .. } => 5,
        EnableStep::EnableRedirect { .. } => 4,
        EnableStep::EnableRadical { .. } => 3,
        EnableStep::UndoRedirect { .. } => 2,
        EnableStep::UndoTor { .. } => 1,
        _ => 0,
    }
}

/// Enabling ends after at most five steps.
pub proof fn enabling_ends(step: EnableStep, outcome: Result<(), String>)
    requires
        steps_left(step) > 0,
    ensures
        steps_left(step_after(step, outcome)) < steps_left(step),
{
}

} // verus!
