//! DNS-leak enforcement policy: decides whether a SOCKS5 CONNECT request is
//! allowed to proceed, based on how the destination was specified.
use crate::net::IpAddress;
use vstd::prelude::*;
use vstd::string::*;

verus! {

/// A SOCKS5 CONNECT destination, exactly as the client specified it.
#[derive(Debug)]
pub enum Destination {
    /// A host name.
    Host(String),
    /// A raw IP address.
    Ip(IpAddress),
}

/// A request that the policy refuses.
#[derive(Debug)]
pub enum LeakViolation {
    /// The destination was a raw IP address.
    RawIpRejected(IpAddress),
}

impl LeakViolation {
    /// What is wrong, and what to do about it.
    pub open spec fn text(self) -> Seq<char> {
        match self {
            LeakViolation::RawIpRejected(ip) => "raw IP address "@ + ip.text()
                + " rejected by DNS-leak policy: the client resolved this hostname itself instead of letting it travel down the Tor circuit, which would leak the lookup to the local/system DNS resolver. Configure the client for remote (SOCKS5) DNS resolution."@,
        }
    }

    /// What is wrong, and what to do about it.
    pub fn message(&self) -> (s: String)
        ensures
            s@ == self.text(),
    {
        match self {
            LeakViolation::RawIpRejected(ip) => {
                let mut s = "raw IP address ".to_owned();
                s.append(ip.to_text().as_str());
                s.append(
                    " rejected by DNS-leak policy: the client resolved this hostname itself instead of letting it travel down the Tor circuit, which would leak the lookup to the local/system DNS resolver. Configure the client for remote (SOCKS5) DNS resolution.",
                );
                s
            },
        }
    }
}

/// Anti-DNS-leak policy for the SOCKS5 front end.
///
/// A CONNECT request that names a raw IP address can only exist if something
/// already resolved the host name, almost always the local system resolver,
/// outside Tor. Rejecting such requests is what prevents the leak.
#[derive(Debug, Clone, Copy)]
pub struct LeakPolicy {
    allow_raw_ip: bool,
}

impl LeakPolicy {
    /// Whether raw IP addresses are let through.
    pub closed spec fn allows_raw_ip(self) -> bool {
        self.allow_raw_ip
    }

    /// What the policy says of a destination.
    pub open spec fn verdict(self, dest: Destination) -> Result<(), LeakViolation> {
        match dest {
            Destination::Ip(ip) => if self.allows_raw_ip() {
                Ok(())
            } else {
                Err(LeakViolation::RawIpRejected(ip))
            },
            Destination::Host(_) => Ok(()),
        }
    }

    /// Rejects any CONNECT request that names a raw IP address.
    pub fn strict() -> (p: Self)
        ensures
            !p.allows_raw_ip(),
    {
        LeakPolicy { allow_raw_ip: false }
    }

    /// Lets raw-IP CONNECT requests through. Only meaningful where something
    /// else guarantees that DNS never touches the local resolver.
    pub fn permissive() -> (p: Self)
        ensures
            p.allows_raw_ip(),
    {
        LeakPolicy { allow_raw_ip: true }
    }

    /// Checks a destination against the policy.
    pub fn check(&self, dest: &Destination) -> (res: Result<(), LeakViolation>)
        ensures
            res == self.verdict(*dest),
    {
        match dest {
            Destination::Ip(ip) => {
                if self.allow_raw_ip {
                    Ok(())
                } else {
                    Err(LeakViolation::RawIpRejected(*ip))
                }
            },
            Destination::Host(_) => Ok(()),
        }
    }
}

impl Default for LeakPolicy {
    fn default() -> (p: Self)
        ensures
            !p.allows_raw_ip(),
    {
        LeakPolicy::strict()
    }
}

} // verus!
