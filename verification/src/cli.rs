//! The command line: kill switch commands, `--pt` options, startup, and the
//! rotation of the log.
use crate::bridges::TransportBinary;
use crate::bridges;
use crate::killswitch::KillSwitch;
use crate::text;
use vstd::prelude::*;
use vstd::string::*;

verus! {

// ---------------------------------------------------------------------------
// `anonet killswitch`.
// ---------------------------------------------------------------------------
/// Which kill switch a command is about.
#[derive(Debug, Clone, Copy, PartialEq, Eq, Structural)]
pub enum KsMode {
    /// Confine one user to loopback only.
    Scoped,
    /// Drop all non-loopback egress except that of anonet's own user.
    Radical,
}

/// How a mode is spelled.
pub open spec fn mode_text(mode: KsMode) -> Seq<char> {
    match mode {
        KsMode::Scoped => "scoped"@,
        KsMode::Radical => "radical"@,
    }
}

/// How a mode is spelled.
pub fn mode_label(mode: KsMode) -> (s: &'static str)
    ensures
        s@ == mode_text(mode),
{
    match mode {
        KsMode::Scoped => "scoped",
        KsMode::Radical => "radical",
    }
}

/// What `killswitch enable` does.
#[derive(Debug, Clone, Copy)]
pub struct EnablePlan {
    /// The switch.
    pub switch: KillSwitch,
    /// After how many seconds it is lifted, if at all.
    pub ttl_secs: Option<u64>,
}

/// How long a switch stays in force: what was asked for, else five minutes for
/// the radical one and for ever for the scoped one.
pub open spec fn lifetime(mode: KsMode, asked: Option<u64>) -> Option<u64> {
    match asked {
        Some(secs) => Some(secs),
        None => match mode {
            KsMode::Radical => Some(300),
            KsMode::Scoped => None,
        },
    }
}

/// The switch that `killswitch enable` is about, if the user that it needs is
/// known.
pub open spec fn asked_switch(
    mode: KsMode,
    protect_uid: Option<u32>,
    own_uid: Option<u32>,
) -> Option<KillSwitch> {
    match mode {
        KsMode::Scoped => match protect_uid {
            Some(uid) => Some(KillSwitch::Scoped { protect_uid: uid }),
            None => None,
        },
        KsMode::Radical => match own_uid {
            Some(uid) => Some(KillSwitch::Radical { anonet_uid: uid }),
            None => None,
        },
    }
}

/// Plans `killswitch enable`. The scoped switch needs the user to confine; the
/// radical one needs the process's own user, and fails if that could not be
/// read.
pub fn plan_enable(
    mode: KsMode,
    protect_uid: Option<u32>,
    own_uid: Result<u32, String>,
    ttl_secs: Option<u64>,
) -> (res: Result<EnablePlan, String>)
    ensures
        match asked_switch(mode, protect_uid, own_uid.ok()) {
            Some(switch) => res matches Ok(p) && p.switch == switch && p.ttl_secs == lifetime(
                mode,
                ttl_secs,
            ),
            None => match mode {
                KsMode::Scoped => res matches Err(e) && e@
                    == "--mode scoped requires --protect-uid <uid>"@,
                KsMode::Radical => own_uid is Err && res == Err::<EnablePlan, String>(
                    own_uid->Err_0,
                ),
            },
        },
{
    let switch = match mode {
        KsMode::Scoped => match protect_uid {
            Some(uid) => KillSwitch::Scoped { protect_uid: uid },
            None => {
                return Err("--mode scoped requires --protect-uid <uid>".to_owned());
            },
        },
        KsMode::Radical => match own_uid {
            Ok(uid) => KillSwitch::Radical { anonet_uid: uid },
            Err(e) => {
                return Err(e);
            },
        },
    };
    let ttl_secs = match ttl_secs {
        Some(secs) => Some(secs),
        None => match mode {
            KsMode::Radical => Some(300),
            KsMode::Scoped => None,
        },
    };
    Ok(EnablePlan { switch, ttl_secs })
}

/// The next thing to do with a switch that is enabled for a time.
#[derive(Debug, Clone, Copy, PartialEq, Eq, Structural)]
pub enum TimedStep {
    /// Enable the switch.
    Enable { switch: KillSwitch, ttl_secs: Option<u64> },
    /// Wait this long, or until asked to stop.
    Wait { switch: KillSwitch, secs: u64 },
    /// Disable the switch.
    Disable { switch: KillSwitch },
    /// Nothing.
    Done,
}

/// What follows a step that succeeded or not.
pub open spec fn timed_step_after(step: TimedStep, ok: bool) -> TimedStep {
    match step {
        TimedStep::Enable { switch, ttl_secs } => match ttl_secs {
            Some(secs) => if ok {
                TimedStep::Wait { switch, secs }
            } else {
                TimedStep::Done
            },
            None => TimedStep::Done,
        },
        TimedStep::Wait { switch, .. } => TimedStep::Disable { switch },
        TimedStep::Disable { .. } => TimedStep::Done,
        TimedStep::Done => TimedStep::Done,
    }
}

impl EnablePlan {
    /// The first step of the plan.
    pub fn begin(&self) -> (step: TimedStep)
        ensures
            step == (TimedStep::Enable { switch: self.switch, ttl_secs: self.ttl_secs }),
    {
        TimedStep::Enable { switch: self.switch, ttl_secs: self.ttl_secs }
    }
}

/// What follows a step that succeeded or not.
pub fn advance_timed(step: TimedStep, ok: bool) -> (next: TimedStep)
    ensures
        next == timed_step_after(step, ok),
{
    match step {
        TimedStep::Enable { switch, ttl_secs } => match ttl_secs {
            Some(secs) => {
                if ok {
                    TimedStep::Wait { switch, secs }
                } else {
                    TimedStep::Done
                }
            },
            None => TimedStep::Done,
        },
        TimedStep::Wait { switch, .. } => TimedStep::Disable { switch },
        TimedStep::Disable { .. } => TimedStep::Done,
        TimedStep::Done => TimedStep::Done,
    }
}

/// A switch that was enabled for a time is followed by a wait of that time and
/// by disabling the same switch; one that could not be enabled, or has no time,
/// by nothing.
pub proof fn timed_switch_is_lifted(plan: EnablePlan, ok: bool, waited: bool)
    ensures
        ({
            let first = TimedStep::Enable { switch: plan.switch, ttl_secs: plan.ttl_secs };
            let second = timed_step_after(first, ok);
            let third = timed_step_after(second, waited);
            if ok && plan.ttl_secs is Some {
                second == (TimedStep::Wait { switch: plan.switch, secs: plan.ttl_secs->Some_0 })
                    && third == (TimedStep::Disable { switch: plan.switch })
            } else {
                second == TimedStep::Done && third == TimedStep::Done
            }
        }),
{
}

/// The switch that a mode is about, for disabling it and asking for its state:
/// its table does not depend on the user.
pub fn switch_of(mode: KsMode) -> (k: KillSwitch)
    ensures
        k == match mode {
            KsMode::Scoped => KillSwitch::Scoped { protect_uid: 0 },
            KsMode::Radical => KillSwitch::Radical { anonet_uid: 0 },
        },
{
    match mode {
        KsMode::Scoped => KillSwitch::Scoped { protect_uid: 0 },
        KsMode::Radical => KillSwitch::Radical { anonet_uid: 0 },
    }
}

/// Disabling is about the same table as enabling: that of a switch does not
/// depend on its user.
pub proof fn tables_do_not_depend_on_users(a: KillSwitch, b: KillSwitch)
    requires
        a is Scoped <==> b is Scoped,
    ensures
        a.table_name() == b.table_name(),
{
}

/// What is printed once a switch is in force.
pub open spec fn enabled_text(mode: KsMode, ttl_secs: Option<u64>) -> Seq<char> {
    match ttl_secs {
        None => "Kill switch enabled with no TTL. Run `anonet killswitch disable --mode "@
            + mode_text(mode) + "` to remove it."@,
        Some(secs) => "Kill switch enabled for up to "@ + text::decimal_text(secs as nat)
            + "s (Ctrl+C disables it immediately)."@,
    }
}

/// What is printed once a switch is in force.
pub fn enabled_message(mode: KsMode, ttl_secs: Option<u64>) -> (s: String)
    ensures
        s@ == enabled_text(mode, ttl_secs),
{
    match ttl_secs {
        None => {
            let mut s = "Kill switch enabled with no TTL. Run `anonet killswitch disable --mode ".to_owned();
            s.append(mode_label(mode));
            s.append("` to remove it.");
            s
        },
        Some(secs) => {
            let mut s = "Kill switch enabled for up to ".to_owned();
            s.append(text::decimal(secs as u128).as_str());
            s.append("s (Ctrl+C disables it immediately).");
            s
        },
    }
}

/// What is printed once `killswitch disable` has lifted a switch.
pub open spec fn disabled_text(mode: KsMode) -> Seq<char> {
    "Kill switch ("@ + mode_text(mode) + ") disabled."@
}

/// What is printed once `killswitch disable` has lifted a switch.
pub fn disabled_message(mode: KsMode) -> (s: String)
    ensures
        s@ == disabled_text(mode),
{
    let mut s = "Kill switch (".to_owned();
    s.append(mode_label(mode));
    s.append(") disabled.");
    s
}

/// How a switch's state is printed.
pub open spec fn state_text(enabled: bool) -> Seq<char> {
    if enabled {
        "ENABLED"@
    } else {
        "disabled"@
    }
}

/// What `killswitch status` prints.
pub open spec fn switches_text(scoped: bool, radical: bool) -> Seq<char> {
    "scoped:  "@ + state_text(scoped) + "\nradical: "@ + state_text(radical)
}

/// What `killswitch status` prints.
pub fn switches_message(scoped: bool, radical: bool) -> (s: String)
    ensures
        s@ == switches_text(scoped, radical),
{
    let mut s = "scoped:  ".to_owned();
    s.append(
        if scoped {
            "ENABLED"
        } else {
            "disabled"
        },
    );
    s.append("\nradical: ");
    s.append(
        if radical {
            "ENABLED"
        } else {
            "disabled"
        },
    );
    s
}

// ---------------------------------------------------------------------------
// `--pt`.
// ---------------------------------------------------------------------------
/// What a `--pt` option says: the transport before the first `=` and the path
/// behind it, both non-empty; or the error.
pub open spec fn pt_outcome(spec_text: Seq<char>) -> Result<bridges::Transport, Seq<char>> {
    let n = text::find_char(spec_text, '=') as int;
    if n >= spec_text.len() {
        Err(
            "--pt must be formatted as protocol=/path/to/binary, got '"@ + spec_text + "'"@,
        )
    } else if n == 0 || n + 1 == spec_text.len() {
        Err(
            "--pt protocol and path must both be non-empty (got '"@ + spec_text + "')"@,
        )
    } else {
        Ok(bridges::Transport { protocol: spec_text.take(n), path: spec_text.skip(n + 1) })
    }
}

/// Reads a `--pt` option.
pub fn parse_pt_spec(spec_text: &str) -> (res: Result<TransportBinary, String>)
    ensures
        match res {
            Ok(t) => pt_outcome(spec_text@) == Ok::<bridges::Transport, Seq<char>>(t@),
            Err(e) => pt_outcome(spec_text@) == Err::<bridges::Transport, Seq<char>>(e@),
        },
{
    proof {
        text::find_char_is_first(spec_text@, '=');
    }
    match text::split_once(spec_text, '=') {
        None => {
            let mut e = "--pt must be formatted as protocol=/path/to/binary, got '".to_owned();
            e.append(spec_text);
            e.append("'");
            Err(e)
        },
        Some(parts) => {
            let (protocol, path) = parts;
            if text::chars_of(protocol.as_str()).len() == 0 || text::chars_of(path.as_str()).len()
                == 0 {
                let mut e = "--pt protocol and path must both be non-empty (got '".to_owned();
                e.append(spec_text);
                e.append("')");
                Err(e)
            } else {
                Ok(TransportBinary::new(protocol.as_str(), path.as_str()))
            }
        },
    }
}

/// What the `--pt` options say together: the transports in order, or the error
/// of the first one that has one.
pub open spec fn pts_outcome(specs: Seq<Seq<char>>) -> Result<Seq<bridges::Transport>, Seq<char>>
    decreases specs.len(),
{
    if specs.len() == 0 {
        Ok(seq![])
    } else {
        match pts_outcome(specs.drop_last()) {
            Err(e) => Err(e),
            Ok(list) => match pt_outcome(specs.last()) {
                Err(e) => Err(e),
                Ok(t) => Ok(list.push(t)),
            },
        }
    }
}

proof fn first_error_stays(specs: Seq<Seq<char>>, n: int)
    requires
        0 <= n <= specs.len(),
        pts_outcome(specs.take(n)) is Err,
    ensures
        pts_outcome(specs) == pts_outcome(specs.take(n)),
    decreases specs.len() - n,
{
    if n < specs.len() {
        assert(specs.take(n + 1).drop_last() == specs.take(n));
        first_error_stays(specs, n + 1);
    } else {
        assert(specs.take(n) == specs);
    }
}

/// Reads the `--pt` options.
pub fn parse_pt_specs(specs: &Vec<String>) -> (res: Result<Vec<TransportBinary>, String>)
    ensures
        match res {
            Ok(list) => pts_outcome(text::texts(specs@)) == Ok::<
                Seq<bridges::Transport>,
                Seq<char>,
            >(bridges::transports_of(list@)),
            Err(e) => pts_outcome(text::texts(specs@)) == Err::<
                Seq<bridges::Transport>,
                Seq<char>,
            >(e@),
        },
{
    let ghost all = text::texts(specs@);
    let mut list: Vec<TransportBinary> = Vec::new();
    assert(bridges::transports_of(list@) == Seq::<bridges::Transport>::empty());
    let mut i: usize = 0;
    while i < specs.len()
        invariant
            i <= specs@.len(),
            all == text::texts(specs@),
            pts_outcome(all.take(i as int)) == Ok::<Seq<bridges::Transport>, Seq<char>>(
                bridges::transports_of(list@),
            ),
        decreases specs@.len() - i,
    {
        let ghost before = bridges::transports_of(list@);
        proof {
            assert(all.take(i + 1).drop_last() == all.take(i as int));
            assert(all.take(i + 1).last() == specs@[i as int]@);
        }
        match parse_pt_spec(specs[i].as_str()) {
            Ok(t) => {
                list.push(t);
                assert(bridges::transports_of(list@) == before.push(t@));
            },
            Err(e) => {
                proof {
                    first_error_stays(all, i + 1);
                }
                return Err(e);
            },
        }
        i = i + 1;
    }
    assert(all.take(i as int) == all);
    Ok(list)
}

// ---------------------------------------------------------------------------
// Startup.
// ---------------------------------------------------------------------------
/// How the client is bootstrapped.
#[derive(Debug, Clone, Copy, PartialEq, Eq, Structural)]
pub enum Bootstrap {
    /// Without a bridge, as none is configured.
    Direct,
    /// Through the bridge at this place.
    Through(usize),
    /// Without a bridge, as none is healthy.
    Fallback,
}

/// How the client is bootstrapped, from how many bridges are configured and
/// which one a search found.
pub open spec fn bootstrap_for(candidates: nat, found: Option<usize>) -> Bootstrap {
    if candidates == 0 {
        Bootstrap::Direct
    } else {
        match found {
            Some(i) => Bootstrap::Through(i),
            None => Bootstrap::Fallback,
        }
    }
}

/// How the client is bootstrapped.
pub fn choose_bootstrap(candidates: usize, found: Option<usize>) -> (b: Bootstrap)
    ensures
        b == bootstrap_for(candidates as nat, found),
{
    if candidates == 0 {
        Bootstrap::Direct
    } else {
        match found {
            Some(i) => Bootstrap::Through(i),
            None => Bootstrap::Fallback,
        }
    }
}

/// How a bootstrap is announced.
pub open spec fn bootstrap_text(b: Bootstrap) -> Seq<char> {
    match b {
        Bootstrap::Direct => "bootstrapping Tor"@,
        Bootstrap::Through(_) => "bootstrapping Tor via bridge"@,
        Bootstrap::Fallback => "bootstrapping Tor (direct fallback)"@,
    }
}

/// How a bootstrap is announced, and how its progress: nothing has elapsed
/// yet, or some seconds have.
pub open spec fn progress_text(b: Bootstrap, elapsed_secs: Option<u64>) -> Seq<char> {
    bootstrap_text(b) + (match elapsed_secs {
        None => "..."@,
        Some(secs) => "... still working ("@ + text::decimal_text(secs as nat) + "s elapsed)"@,
    })
}

/// How a bootstrap is announced, and how its progress.
pub fn progress_line(b: Bootstrap, elapsed_secs: Option<u64>) -> (s: String)
    ensures
        s@ == progress_text(b, elapsed_secs),
{
    let mut s = match b {
        Bootstrap::Direct => "bootstrapping Tor".to_owned(),
        Bootstrap::Through(_) => "bootstrapping Tor via bridge".to_owned(),
        Bootstrap::Fallback => "bootstrapping Tor (direct fallback)".to_owned(),
    };
    match elapsed_secs {
        None => {
            s.append("...");
        },
        Some(secs) => {
            let mut rest = "... still working (".to_owned();
            rest.append(text::decimal(secs as u128).as_str());
            rest.append("s elapsed)");
            s.append(rest.as_str());
        },
    }
    s
}

// ---------------------------------------------------------------------------
// The log.
// ---------------------------------------------------------------------------
/// How large the log may get, in bytes.
pub const LOG_ROTATE_THRESHOLD_BYTES: u64 = 10_485_760;

/// A path with another extension.
pub uninterp spec fn path_with_extension(path: Seq<char>, extension: Seq<char>) -> Seq<char>;

/// Whether a path is a stem, a dot and an extension: the stem does not end in
/// a slash nor in a component that is a single dot, and the extension holds
/// neither slash nor dot.
pub open spec fn has_extension(path: Seq<char>, stem: Seq<char>, extension: Seq<char>) -> bool {
    &&& path == stem.push('.') + extension
    &&& stem.len() > 0
    &&& stem.last() != '/'
    &&& !(stem.last() == '.' && (stem.len() == 1 || stem[stem.len() - 2] == '/'))
    &&& extension.len() > 0
    &&& forall|i: int|
        0 <= i < extension.len() ==> (#[trigger] extension[i]) != '/' && extension[i] != '.'
}

/// `Path::with_extension` of std: depends on the path and the extension alone.
/// What follows the last dot of the file name gives way to the new extension.
/// What it does with a path whose file name has no extension, or is two dots and
/// an extension, is left unsaid.
/// It panics on an extension that holds a separator.
#[verifier::external_body]
fn with_extension(path: &str, extension: &str) -> (r: String)
    requires
        extension@.len() > 0,
        !extension@.contains('/'),
    ensures
        r@ == path_with_extension(path@, extension@),
        forall|stem: Seq<char>, old_ext: Seq<char>|
            #[trigger] has_extension(path@, stem, old_ext) ==> r@ == stem.push('.') + extension@,
{
    std::path::Path::new(path).with_extension(extension).to_string_lossy().into_owned()
}

/// Whether a log is moved away: there is one, and it is larger than `max_bytes`.
pub open spec fn is_too_large(len: Option<u64>, max_bytes: u64) -> bool {
    match len {
        Some(n) => n > max_bytes,
        None => false,
    }
}

/// Where a log is moved to before a new one is begun: its path with the
/// extension `log.1`, if it is larger than `max_bytes`; nowhere if it is not,
/// or if there is none.
pub fn rotate_log_if_large(path: &str, len: Option<u64>, max_bytes: u64) -> (to: Option<String>)
    ensures
        text::opt_text(to) == if is_too_large(len, max_bytes) {
            Some(path_with_extension(path@, "log.1"@))
        } else {
            None
        },
        forall|stem: Seq<char>|
            #[trigger] has_extension(path@, stem, "log"@) ==> (to matches Some(t) ==> t@
                == stem.push('.') + "log.1"@),
{
    match len {
        Some(n) => {
            if n > max_bytes {
                proof {
                    reveal_strlit("log.1");
                }
                Some(with_extension(path, "log.1"))
            } else {
                None
            }
        },
        None => None,
    }
}

} // verus!
