//! nftables-based kill switches: two independent rulesets, each in a table of
//! its own, so that enabling or disabling one never touches the other.
//!
//! - **Scoped**: confines one user to loopback only. Everyone else is
//!   unaffected.
//! - **Radical**: drops all non-loopback egress except that of anonet's own
//!   user.
use crate::nft::{self, AddressSet, Condition, Hook, NftError, Rule, ScriptRun, Verdict};
use crate::text;
use vstd::prelude::*;
use vstd::string::*;

verus! {

/// A kill switch.
#[derive(Debug, Clone, Copy, PartialEq, Eq, Structural)]
pub enum KillSwitch {
    /// Confines `protect_uid` to loopback only.
    Scoped { protect_uid: u32 },
    /// Drops all non-loopback egress except that of `anonet_uid`.
    Radical { anonet_uid: u32 },
}

/// What was meant to be done, when a switch could not be enabled.
pub open spec fn enabling_text(table: Seq<char>) -> Seq<char> {
    "failed to enable kill switch (table "@ + table + ")"@
}

/// What was meant to be done, when a switch could not be disabled.
pub open spec fn disabling_text(table: Seq<char>) -> Seq<char> {
    "failed to disable kill switch (table "@ + table + ")"@
}

impl KillSwitch {
    /// The name of the switch's table.
    pub open spec fn table_name(self) -> Seq<char> {
        match self {
            KillSwitch::Scoped { .. } => "anonet_ks_scoped"@,
            KillSwitch::Radical { .. } => "anonet_ks_system"@,
        }
    }

    /// The rules of the switch's chain.
    pub open spec fn rules(self) -> Seq<Rule> {
        match self {
            KillSwitch::Scoped { protect_uid } => seq![
                (Rule {
                    owner: Some(protect_uid),
                    condition: Condition::OutLoopback,
                    verdict: Verdict::Accept,
                }),
                (Rule {
                    owner: Some(protect_uid),
                    condition: Condition::To(AddressSet::Localhost4),
                    verdict: Verdict::Accept,
                }),
                (Rule {
                    owner: Some(protect_uid),
                    condition: Condition::To(AddressSet::Localhost6),
                    verdict: Verdict::Accept,
                }),
                (Rule {
                    owner: Some(protect_uid),
                    condition: Condition::Always,
                    verdict: Verdict::Drop,
                }),
            ],
            KillSwitch::Radical { anonet_uid } => seq![
                (Rule {
                    owner: None,
                    condition: Condition::OutLoopback,
                    verdict: Verdict::Accept,
                }),
                (Rule {
                    owner: Some(anonet_uid),
                    condition: Condition::Always,
                    verdict: Verdict::Accept,
                }),
                (Rule { owner: None, condition: Condition::Always, verdict: Verdict::Drop }),
            ],
        }
    }

    /// The script that puts the switch in force.
    pub open spec fn ruleset_text(self) -> Seq<char> {
        nft::table_header(self.table_name()) + nft::chain_text(Hook::FilterOutput, self.rules())
            + "}\n"@
    }

    /// Whether the switch lets a packet pass.
    pub open spec fn passes(self, p: nft::Packet) -> bool {
        nft::chain_verdict(self.rules(), p) != Verdict::Drop
    }

    /// The name of the switch's table.
    pub fn table(&self) -> (name: &'static str)
        ensures
            name@ == self.table_name(),
    {
        match self {
            KillSwitch::Scoped { .. } => "anonet_ks_scoped",
            KillSwitch::Radical { .. } => "anonet_ks_system",
        }
    }

    /// The script that puts the switch in force.
    pub fn ruleset(&self) -> (s: String)
        ensures
            s@ == self.ruleset_text(),
    {
        let mut rules: Vec<Rule> = Vec::new();
        match *self {
            KillSwitch::Scoped { protect_uid } => {
                rules.push(
                    Rule {
                        owner: Some(protect_uid),
                        condition: Condition::OutLoopback,
                        verdict: Verdict::Accept,
                    },
                );
                rules.push(
                    Rule {
                        owner: Some(protect_uid),
                        condition: Condition::To(AddressSet::Localhost4),
                        verdict: Verdict::Accept,
                    },
                );
                rules.push(
                    Rule {
                        owner: Some(protect_uid),
                        condition: Condition::To(AddressSet::Localhost6),
                        verdict: Verdict::Accept,
                    },
                );
                rules.push(
                    Rule {
                        owner: Some(protect_uid),
                        condition: Condition::Always,
                        verdict: Verdict::Drop,
                    },
                );
            },
            KillSwitch::Radical { anonet_uid } => {
                rules.push(
                    Rule {
                        owner: None,
                        condition: Condition::OutLoopback,
                        verdict: Verdict::Accept,
                    },
                );
                rules.push(
                    Rule {
                        owner: Some(anonet_uid),
                        condition: Condition::Always,
                        verdict: Verdict::Accept,
                    },
                );
                rules.push(
                    Rule { owner: None, condition: Condition::Always, verdict: Verdict::Drop },
                );
            },
        }
        assert(rules@ == self.rules());
        let mut s = nft::open_table(self.table());
        nft::write_chain(&mut s, Hook::FilterOutput, &rules);
        s.append("}\n");
        s
    }

    /// The script that lifts the switch.
    pub fn removal_script(&self) -> (s: String)
        ensures
            s@ == nft::delete_text(self.table_name()),
    {
        nft::delete_script(self.table())
    }

    /// Whether the switch is in force, from how `nft list table` on its table
    /// exited and what it printed.
    pub fn is_enabled(&self, success: bool, stderr: &[u8]) -> (res: Result<bool, String>)
        ensures
            match res {
                Ok(b) => nft::table_status(success, text::lossy_text(stderr@)) == Ok::<
                    bool,
                    Seq<char>,
                >(b),
                Err(e) => nft::table_status(success, text::lossy_text(stderr@)) == Err::<
                    bool,
                    Seq<char>,
                >(e@),
            },
    {
        nft::is_table_present(success, stderr)
    }

    /// The outcome of enabling the switch, from that of running its script.
    pub fn enable(&self, run: &ScriptRun) -> (res: Result<(), NftError>)
        ensures
            res is Ok <==> nft::run_outcome(*run) is Ok,
            res matches Err(e) ==> nft::run_outcome(*run) == Err::<(), Seq<char>>(e.cause@)
                && e.context@ == enabling_text(self.table_name()),
    {
        match nft::run_result(run) {
            Ok(_) => Ok(()),
            Err(cause) => {
                let mut context = "failed to enable kill switch (table ".to_owned();
                context.append(self.table());
                context.append(")");
                Err(NftError { context, cause })
            },
        }
    }

    /// The outcome of disabling the switch, from that of running its removal
    /// script. Disabling a switch that is not in force is no error.
    pub fn disable(&self, run: &ScriptRun) -> (res: Result<(), NftError>)
        ensures
            res is Ok <==> nft::removed(*run),
            res matches Err(e) ==> nft::run_outcome(*run) == Err::<(), Seq<char>>(e.cause@)
                && e.context@ == disabling_text(self.table_name()),
    {
        match nft::run_result(run) {
            Ok(_) => Ok(()),
            Err(cause) => {
                if nft::is_removed(run) {
                    return Ok(());
                }
                let mut context = "failed to disable kill switch (table ".to_owned();
                context.append(self.table());
                context.append(")");
                Err(NftError { context, cause })
            },
        }
    }
}

/// The scoped switch confines its user to loopback: of that user's packets it
/// lets exactly those pass that leave through the loopback interface or go to
/// `127.0.0.1` or `::1`.
pub proof fn scoped_confines_its_user(protect_uid: u32, p: nft::Packet)
    requires
        p.owner == Some(protect_uid),
    ensures
        (KillSwitch::Scoped { protect_uid }).passes(p) <==> p.out_loopback || nft::is_localhost(
            p.dst,
        ),
{
    nft::local_sets_are_local(p.dst);
    unfold_rules((KillSwitch::Scoped { protect_uid }), p);
}

/// The scoped switch leaves everyone else alone.
pub proof fn scoped_spares_others(protect_uid: u32, p: nft::Packet)
    requires
        p.owner != Some(protect_uid),
    ensures
        (KillSwitch::Scoped { protect_uid }).passes(p),
{
    unfold_rules((KillSwitch::Scoped { protect_uid }), p);
}

/// The radical switch drops everything but what leaves through the loopback
/// interface and what anonet's own user sends.
pub proof fn radical_drops_all_else(anonet_uid: u32, p: nft::Packet)
    ensures
        (KillSwitch::Radical { anonet_uid }).passes(p) <==> p.out_loopback || p.owner == Some(
            anonet_uid,
        ),
{
    unfold_rules((KillSwitch::Radical { anonet_uid }), p);
}

proof fn unfold_rules(switch: KillSwitch, p: nft::Packet)
    ensures
        ({
            let rules = switch.rules();
            nft::chain_verdict(rules, p) == if nft::rule_matches(rules[0], p) {
                rules[0].verdict
            } else if nft::rule_matches(rules[1], p) {
                rules[1].verdict
            } else if nft::rule_matches(rules[2], p) {
                rules[2].verdict
            } else if rules.len() == 4 && nft::rule_matches(rules[3], p) {
                rules[3].verdict
            } else {
                Verdict::Accept
            }
        }),
{
    reveal_with_fuel(nft::chain_verdict, 5);
}

/// The two switches have tables of their own, so that defining or deleting
/// one names nothing of the other.
pub proof fn switches_have_their_own_tables(protect_uid: u32, anonet_uid: u32)
    ensures
        (KillSwitch::Scoped { protect_uid }).table_name() != (KillSwitch::Radical {
            anonet_uid,
        }).table_name(),
{
    reveal_strlit("anonet_ks_scoped");
    reveal_strlit("anonet_ks_system");
    assert("anonet_ks_scoped"@[11] != "anonet_ks_system"@[11]);
}

/// Removing a switch's table names no other switch's table.
pub proof fn removal_leaves_other_tables(switch: KillSwitch, other: Seq<char>)
    requires
        other != switch.table_name(),
    ensures
        nft::delete_text(switch.table_name()) != nft::delete_text(other),
{
    if nft::delete_text(switch.table_name()) == nft::delete_text(other) {
        nft::removal_scripts_differ(switch.table_name(), other);
    }
}

// ---------------------------------------------------------------------------
// The process's own user.
// ---------------------------------------------------------------------------
/// The user, from how `id -u` exited and what it printed.
pub open spec fn uid_outcome(success: bool, status: Seq<char>, stdout: Seq<char>) -> Result<
    u32,
    Seq<char>,
> {
    if !success {
        Err("`id -u` exited with "@ + status)
    } else {
        match text::u32_of(text::trim_text(stdout)) {
            Some(uid) => Ok(uid),
            None => Err("`id -u` did not print a plain integer"@),
        }
    }
}

/// Reads the user from what `id -u` printed, as text.
pub fn uid_of_text(success: bool, status: &str, stdout: &str) -> (res: Result<u32, String>)
    ensures
        match res {
            Ok(uid) => uid_outcome(success, status@, stdout@) == Ok::<u32, Seq<char>>(uid),
            Err(e) => uid_outcome(success, status@, stdout@) == Err::<u32, Seq<char>>(e@),
        },
{
    if !success {
        let mut e = "`id -u` exited with ".to_owned();
        e.append(status);
        return Err(e);
    }
    match text::parse_u32(text::trim(stdout).as_str()) {
        Some(uid) => Ok(uid),
        None => Err("`id -u` did not print a plain integer".to_owned()),
    }
}

/// Reads the process's real user from the bytes that `id -u` printed.
pub fn current_uid(success: bool, status: &str, stdout: &[u8]) -> (res: Result<u32, String>)
    ensures
        match res {
            Ok(uid) => uid_outcome(success, status@, text::lossy_text(stdout@)) == Ok::<
                u32,
                Seq<char>,
            >(uid),
            Err(e) => uid_outcome(success, status@, text::lossy_text(stdout@)) == Err::<
                u32,
                Seq<char>,
            >(e@),
        },
{
    uid_of_text(success, status, text::lossy(stdout).as_str())
}

} // verus!
