//! NAT rules that redirect TCP and DNS traffic to the supervised `tor`
//! process, for every user except anonet's own.
//!
//! Paired with the radical kill switch: the redirect handles TCP and DNS;
//! anything else is dropped rather than leaked, since redirected traffic is
//! loopback-destined before it reaches the switch.
use crate::killswitch::KillSwitch;
use crate::net::IpAddress;
use crate::nft::{self, AddressSet, Condition, Hook, NftError, Rule, ScriptRun, Verdict};
use crate::text;
use vstd::prelude::*;
use vstd::string::*;

verus! {

/// A redirection to the supervised `tor` process.
#[derive(Debug, Clone, Copy)]
pub struct TransparentRedirect {
    /// The user that is exempt: the one that `tor` runs as.
    pub anonet_uid: u32,
    /// Where TCP goes.
    pub trans_port: u16,
    /// Where DNS goes.
    pub dns_port: u16,
}

impl TransparentRedirect {
    /// The rules of both chains.
    pub open spec fn rules(self) -> Seq<Rule> {
        seq![
            (Rule {
                owner: Some(self.anonet_uid),
                condition: Condition::Always,
                verdict: Verdict::Return,
            }),
            (Rule {
                owner: None,
                condition: Condition::To(AddressSet::Local4),
                verdict: Verdict::Return,
            }),
            (Rule {
                owner: None,
                condition: Condition::To(AddressSet::Local6),
                verdict: Verdict::Return,
            }),
            (Rule { owner: None, condition: Condition::TcpPort(22), verdict: Verdict::Return }),
            (Rule {
                owner: None,
                condition: Condition::UdpPort(53),
                verdict: Verdict::Redirect(self.dns_port),
            }),
            (Rule {
                owner: None,
                condition: Condition::Tcp,
                verdict: Verdict::Redirect(self.trans_port),
            }),
        ]
    }

    /// The script that puts the redirection in force.
    pub open spec fn ruleset_text(self) -> Seq<char> {
        nft::table_header("anonet_transparent"@) + nft::chain_text(
            Hook::NatPrerouting,
            self.rules(),
        ) + nft::chain_text(Hook::NatOutput, self.rules()) + "}\n"@
    }

    /// What becomes of a packet.
    pub open spec fn rewritten(self, p: nft::Packet) -> nft::Packet {
        match nft::chain_verdict(self.rules(), p) {
            Verdict::Redirect(port) => nft::Packet {
                out_loopback: true,
                dst: loopback_like(p.dst),
                port,
                ..p
            },
            _ => p,
        }
    }

    /// Whether a packet is none of the redirection's business: anonet's own,
    /// to a local destination, or SSH.
    pub open spec fn exempt(self, p: nft::Packet) -> bool {
        ||| p.owner == Some(self.anonet_uid)
        ||| nft::is_local(p.dst)
        ||| (p.protocol is Tcp && p.port == 22)
    }

    /// The script that puts the redirection in force.
    pub fn ruleset(&self) -> (s: String)
        ensures
            s@ == self.ruleset_text(),
    {
        let mut rules: Vec<Rule> = Vec::new();
        rules.push(
            Rule {
                owner: Some(self.anonet_uid),
                condition: Condition::Always,
                verdict: Verdict::Return,
            },
        );
        rules.push(
            Rule {
                owner: None,
                condition: Condition::To(AddressSet::Local4),
                verdict: Verdict::Return,
            },
        );
        rules.push(
            Rule {
                owner: None,
                condition: Condition::To(AddressSet::Local6),
                verdict: Verdict::Return,
            },
        );
        rules.push(
            Rule { owner: None, condition: Condition::TcpPort(22), verdict: Verdict::Return },
        );
        rules.push(
            Rule {
                owner: None,
                condition: Condition::UdpPort(53),
                verdict: Verdict::Redirect(self.dns_port),
            },
        );
        rules.push(
            Rule {
                owner: None,
                condition: Condition::Tcp,
                verdict: Verdict::Redirect(self.trans_port),
            },
        );
        assert(rules@ == self.rules());
        let mut s = nft::open_table("anonet_transparent");
        nft::write_chain(&mut s, Hook::NatPrerouting, &rules);
        nft::write_chain(&mut s, Hook::NatOutput, &rules);
        s.append("}\n");
        s
    }

    /// The name of the redirection's table.
    pub fn table(&self) -> (name: &'static str)
        ensures
            name@ == "anonet_transparent"@,
    {
        "anonet_transparent"
    }

    /// The script that lifts the redirection.
    pub fn removal_script(&self) -> (s: String)
        ensures
            s@ == nft::delete_text("anonet_transparent"@),
    {
        nft::delete_script("anonet_transparent")
    }

    /// Whether the redirection is in force, from how `nft list table` on its table
    /// exited and what it printed.
    pub fn is_enabled(&self, success: bool, stderr: &[u8]) -> (res: Result<bool, String>)
        ensures
            match res {
                Ok(b) => nft::table_status(success, text::lossy_text(stderr@)) == Ok::<
                    bool,
                    Seq<char>,
                >(b),
                Err(e) => nft::table_status(success, text::lossy_text(stderr@)) == Err::<
                    bool,
                    Seq<char>,
                >(e@),
            },
    {
        nft::is_table_present(success, stderr)
    }

    /// The outcome of enabling the redirection, from how running its
    /// script went.
    pub fn enable(&self, run: &ScriptRun) -> (res: Result<(), NftError>)
        ensures
            res is Ok <==> nft::run_outcome(*run) is Ok,
            res matches Err(e) ==> nft::run_outcome(*run) == Err::<(), Seq<char>>(e.cause@)
                && e.context@
                == "failed to enable transparent redirect"@,
    {
        match nft::run_result(run) {
            Ok(_) => Ok(()),
            Err(cause) => {
                let context = "failed to enable transparent redirect".to_owned();
                Err(NftError { context, cause })
            },
        }
    }

    /// The outcome of disabling the redirection, from that of running its
    /// removal script. Disabling one that is not in force is no error.
    pub fn disable(&self, run: &ScriptRun) -> (res: Result<(), NftError>)
        ensures
            res is Ok <==> nft::removed(*run),
            res matches Err(e) ==> nft::run_outcome(*run) == Err::<(), Seq<char>>(e.cause@)
                && e.context@
                == "failed to disable transparent redirect"@,
    {
        match nft::run_result(run) {
            Ok(_) => Ok(()),
            Err(cause) => {
                if nft::is_removed(run) {
                    return Ok(());
                }
                let context = "failed to disable transparent redirect".to_owned();
                Err(NftError { context, cause })
            },
        }
    }
}

/// The localhost address of the same family, where a redirected packet goes.
pub open spec fn loopback_like(addr: IpAddress) -> IpAddress {
    match addr {
        IpAddress::V4(_) => IpAddress::V4([127u8, 0u8, 0u8, 1u8]),
        IpAddress::V6(_) => IpAddress::V6(
            [0u8, 0u8, 0u8, 0u8, 0u8, 0u8, 0u8, 0u8, 0u8, 0u8, 0u8, 0u8, 0u8, 0u8, 0u8, 1u8],
        ),
    }
}

proof fn unfold_rules(r: TransparentRedirect, p: nft::Packet)
    ensures
        nft::chain_verdict(r.rules(), p) == if r.exempt(p) {
            Verdict::Return
        } else if p.protocol is Udp && p.port == 53 {
            Verdict::Redirect(r.dns_port)
        } else if p.protocol is Tcp {
            Verdict::Redirect(r.trans_port)
        } else {
            Verdict::Accept
        },
{
    nft::local_sets_are_local(p.dst);
    reveal_with_fuel(nft::chain_verdict, 7);
}

/// What anonet's own user sends, what goes to a local destination and SSH are
/// left as they are.
pub proof fn redirect_spares_exempt(r: TransparentRedirect, p: nft::Packet)
    requires
        r.exempt(p),
    ensures
        r.rewritten(p) == p,
{
    unfold_rules(r, p);
}

/// All other TCP goes to `trans_port`, all other DNS to `dns_port`, on the
/// loopback interface; anything else is left as it is.
pub proof fn redirect_takes_tcp_and_dns(r: TransparentRedirect, p: nft::Packet)
    requires
        !r.exempt(p),
    ensures
        p.protocol is Tcp ==> r.rewritten(p).out_loopback && r.rewritten(p).port == r.trans_port,
        p.protocol is Udp && p.port == 53 ==> r.rewritten(p).out_loopback && r.rewritten(p).port
            == r.dns_port,
        !(p.protocol is Tcp) && !(p.protocol is Udp && p.port == 53) ==> r.rewritten(p) == p,
{
    unfold_rules(r, p);
}

/// With the redirection and the radical switch both in force for the same
/// user, whatever passes and does not stay on the loopback interface was sent
/// by that user.
pub proof fn nothing_else_leaves(r: TransparentRedirect, p: nft::Packet)
    requires
        (KillSwitch::Radical { anonet_uid: r.anonet_uid }).passes(r.rewritten(p)),
        !r.rewritten(p).out_loopback,
    ensures
        p.owner == Some(r.anonet_uid),
        r.rewritten(p) == p,
{
    unfold_rules(r, p);
    crate::killswitch::radical_drops_all_else(r.anonet_uid, r.rewritten(p));
}

/// With both in force, the TCP and DNS traffic that is not exempt reaches
/// `tor`.
pub proof fn redirected_traffic_passes(r: TransparentRedirect, p: nft::Packet)
    requires
        !r.exempt(p),
        p.protocol is Tcp || (p.protocol is Udp && p.port == 53),
    ensures
        (KillSwitch::Radical { anonet_uid: r.anonet_uid }).passes(r.rewritten(p)),
{
    unfold_rules(r, p);
    crate::killswitch::radical_drops_all_else(r.anonet_uid, r.rewritten(p));
}

/// The redirection has a table of its own.
pub proof fn redirect_has_its_own_table(switch: KillSwitch)
    ensures
        switch.table_name() != "anonet_transparent"@,
{
    reveal_strlit("anonet_ks_scoped");
    reveal_strlit("anonet_ks_system");
    reveal_strlit("anonet_transparent");
    assert("anonet_transparent"@.len() != "anonet_ks_scoped"@.len());
}

} // verus!
