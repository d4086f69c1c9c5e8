//! The part of nftables that the switches use: rules, how they are written in
//! a script, what they do to a packet, and how `nft`'s answers are read.
use crate::net::IpAddress;
use crate::text;
use vstd::prelude::*;
use vstd::string::*;

verus! {

/// A set of destination addresses that a rule names.
#[derive(Debug, Clone, Copy, PartialEq, Eq, Structural)]
pub enum AddressSet {
    /// `127.0.0.1`.
    Localhost4,
    /// `::1`.
    Localhost6,
    /// IPv4 loopback and private networks.
    Local4,
    /// IPv6 loopback, unique-local and link-local networks.
    Local6,
}

/// The condition of a rule.
#[derive(Debug, Clone, Copy, PartialEq, Eq, Structural)]
pub enum Condition {
    /// Every packet.
    Always,
    /// Packets that leave through the loopback interface.
    OutLoopback,
    /// Packets to an address of the set.
    To(AddressSet),
    /// TCP packets to a port.
    TcpPort(u16),
    /// UDP packets to a port.
    UdpPort(u16),
    /// TCP packets.
    Tcp,
}

/// What a rule does with a packet that it matches.
#[derive(Debug, Clone, Copy, PartialEq, Eq, Structural)]
pub enum Verdict {
    /// Lets it pass.
    Accept,
    /// Discards it.
    Drop,
    /// Leaves the chain: the chain's policy, accept, applies.
    Return,
    /// Sends it to a local port instead.
    Redirect(u16),
}

/// A rule: for packets of the owner (or of anyone) that meet the condition.
#[derive(Debug, Clone, Copy, PartialEq, Eq, Structural)]
pub struct Rule {
    /// The user whose packets are meant.
    pub owner: Option<u32>,
    /// The condition.
    pub condition: Condition,
    /// What is done.
    pub verdict: Verdict,
}

/// Where a chain is attached.
#[derive(Debug, Clone, Copy, PartialEq, Eq, Structural)]
pub enum Hook {
    /// Filters what local processes send.
    FilterOutput,
    /// Rewrites what local processes send.
    NatOutput,
    /// Rewrites what arrives.
    NatPrerouting,
}

// ---------------------------------------------------------------------------
// How rules are written.
// ---------------------------------------------------------------------------
/// A network: the addresses that share the first `prefix` bits of `address`.
#[derive(Debug, Clone, Copy)]
pub struct Network {
    /// An address of the network.
    pub address: IpAddress,
    /// How many bits are shared.
    pub prefix: u8,
}

impl Network {
    /// The network as it is written: with its prefix, unless it is one address.
    pub open spec fn text(self) -> Seq<char> {
        if self.prefix == 8 * self.address.octets().len() {
            self.address.text()
        } else {
            self.address.text() + "/"@ + text::decimal_text(self.prefix as nat)
        }
    }

    /// Whether an address is in the network.
    pub open spec fn has(self, addr: IpAddress) -> bool {
        (addr is V4 <==> self.address is V4) && in_network(
            addr.octets(),
            self.address.octets(),
            self.prefix as int,
        )
    }

    fn to_text(&self) -> (s: String)
        ensures
            s@ == self.text(),
    {
        let whole: u8 = match self.address {
            IpAddress::V4(_) => 32,
            IpAddress::V6(_) => 128,
        };
        let mut s = self.address.to_text();
        if self.prefix != whole {
            s.append("/");
            s.append(text::decimal(self.prefix as u128).as_str());
        }
        s
    }
}

/// An IPv4 network.
pub open spec fn network4(a: u8, b: u8, c: u8, d: u8, prefix: u8) -> Network {
    Network { address: IpAddress::V4([a, b, c, d]), prefix }
}

/// An IPv6 network whose address begins with two octets, ends with one, and is
/// zero between them.
pub open spec fn network6(a: u8, b: u8, z: u8, prefix: u8) -> Network {
    Network {
        address: IpAddress::V6(
            [a, b, 0u8, 0u8, 0u8, 0u8, 0u8, 0u8, 0u8, 0u8, 0u8, 0u8, 0u8, 0u8, 0u8, z],
        ),
        prefix,
    }
}

fn make4(a: u8, b: u8, c: u8, d: u8, prefix: u8) -> (n: Network)
    ensures
        n == network4(a, b, c, d, prefix),
{
    Network { address: IpAddress::V4([a, b, c, d]), prefix }
}

fn make6(a: u8, b: u8, z: u8, prefix: u8) -> (n: Network)
    ensures
        n == network6(a, b, z, prefix),
{
    Network {
        address: IpAddress::V6(
            [a, b, 0u8, 0u8, 0u8, 0u8, 0u8, 0u8, 0u8, 0u8, 0u8, 0u8, 0u8, 0u8, 0u8, z],
        ),
        prefix,
    }
}

/// The texts of networks.
pub open spec fn network_texts(nets: Seq<Network>) -> Seq<Seq<char>> {
    nets.map_values(|n: Network| n.text())
}

impl AddressSet {
    /// The networks that make up the set.
    pub open spec fn networks(self) -> Seq<Network> {
        match self {
            AddressSet::Localhost4 => seq![network4(127, 0, 0, 1, 32)],
            AddressSet::Localhost6 => seq![network6(0, 0, 1, 128)],
            AddressSet::Local4 => seq![
                network4(127, 0, 0, 0, 8),
                network4(10, 0, 0, 0, 8),
                network4(172, 16, 0, 0, 12),
                network4(192, 168, 0, 0, 16),
            ],
            AddressSet::Local6 => seq![
                network6(0, 0, 1, 128),
                network6(252, 0, 0, 7),
                network6(254, 128, 0, 10),
            ],
        }
    }

    /// The match expression: the family's keyword and the networks.
    pub open spec fn text(self) -> Seq<char> {
        let nets = network_texts(self.networks());
        match self {
            AddressSet::Localhost4 => "ip daddr "@ + nets[0],
            AddressSet::Localhost6 => "ip6 daddr "@ + nets[0],
            AddressSet::Local4 => "ip daddr { "@ + text::join_texts(nets, ", "@) + " }"@,
            AddressSet::Local6 => "ip6 daddr { "@ + text::join_texts(nets, ", "@) + " }"@,
        }
    }

    fn network_list(&self) -> (nets: Vec<String>)
        ensures
            text::texts(nets@) == network_texts(self.networks()),
            nets@.len() == self.networks().len(),
    {
        let mut nets: Vec<String> = Vec::new();
        match self {
            AddressSet::Localhost4 => {
                nets.push(make4(127, 0, 0, 1, 32).to_text());
            },
            AddressSet::Localhost6 => {
                nets.push(make6(0, 0, 1, 128).to_text());
            },
            AddressSet::Local4 => {
                nets.push(make4(127, 0, 0, 0, 8).to_text());
                nets.push(make4(10, 0, 0, 0, 8).to_text());
                nets.push(make4(172, 16, 0, 0, 12).to_text());
                nets.push(make4(192, 168, 0, 0, 16).to_text());
            },
            AddressSet::Local6 => {
                nets.push(make6(0, 0, 1, 128).to_text());
                nets.push(make6(252, 0, 0, 7).to_text());
                nets.push(make6(254, 128, 0, 10).to_text());
            },
        }
        assert(text::texts(nets@) == network_texts(self.networks()));
        nets
    }

    fn to_text(&self) -> (s: String)
        ensures
            s@ == self.text(),
    {
        let nets = self.network_list();
        let ghost all = network_texts(self.networks());
        assert(text::texts(nets@) == all);
        match self {
            AddressSet::Localhost4 => {
                assert(all[0] == nets@[0]@);
                let mut s = "ip daddr ".to_owned();
                s.append(nets[0].as_str());
                s
            },
            AddressSet::Localhost6 => {
                assert(all[0] == nets@[0]@);
                let mut s = "ip6 daddr ".to_owned();
                s.append(nets[0].as_str());
                s
            },
            AddressSet::Local4 => {
                let mut s = "ip daddr { ".to_owned();
                s.append(text::join(&nets, ", ").as_str());
                s.append(" }");
                s
            },
            AddressSet::Local6 => {
                let mut s = "ip6 daddr { ".to_owned();
                s.append(text::join(&nets, ", ").as_str());
                s.append(" }");
                s
            },
        }
    }
}

impl Rule {
    /// The part that names the owner.
    pub open spec fn owner_text(self) -> Seq<char> {
        match self.owner {
            Some(uid) => "meta skuid "@ + text::decimal_text(uid as nat) + " "@,
            None => ""@,
        }
    }

    /// The part that states the condition.
    pub open spec fn condition_text(self) -> Seq<char> {
        match self.condition {
            Condition::Always => ""@,
            Condition::OutLoopback => "oif lo "@,
            Condition::To(set) => set.text() + " "@,
            Condition::TcpPort(port) => "tcp dport "@ + text::decimal_text(port as nat) + " "@,
            Condition::UdpPort(port) => "udp dport "@ + text::decimal_text(port as nat) + " "@,
            Condition::Tcp => "meta l4proto tcp "@,
        }
    }

    /// The part that states the verdict.
    pub open spec fn verdict_text(self) -> Seq<char> {
        match self.verdict {
            Verdict::Accept => "accept"@,
            Verdict::Drop => "counter drop"@,
            Verdict::Return => "return"@,
            Verdict::Redirect(port) => "redirect to :"@ + text::decimal_text(port as nat),
        }
    }

    /// The rule as a line of a script.
    pub open spec fn text(self) -> Seq<char> {
        "\t\t"@ + self.owner_text() + self.condition_text() + self.verdict_text() + "\n"@
    }

    /// Appends the rule's line to a script.
    fn write(&self, out: &mut String)
        ensures
            final(out)@ == old(out)@ + self.text(),
    {
        let ghost before = out@;
        out.append("\t\t");
        match self.owner {
            Some(uid) => {
                out.append("meta skuid ");
                out.append(text::decimal(uid as u128).as_str());
                out.append(" ");
            },
            None => {
                out.append("");
            },
        }
        assert(out@ == before + ("\t\t"@ + self.owner_text()));
        match self.condition {
            Condition::Always => {
                out.append("");
            },
            Condition::OutLoopback => {
                out.append("oif lo ");
            },
            Condition::To(set) => {
                out.append(set.to_text().as_str());
                out.append(" ");
            },
            Condition::TcpPort(port) => {
                out.append("tcp dport ");
                out.append(text::decimal(port as u128).as_str());
                out.append(" ");
            },
            Condition::UdpPort(port) => {
                out.append("udp dport ");
                out.append(text::decimal(port as u128).as_str());
                out.append(" ");
            },
            Condition::Tcp => {
                out.append("meta l4proto tcp ");
            },
        }
        assert(out@ == before + ("\t\t"@ + self.owner_text() + self.condition_text()));
        match self.verdict {
            Verdict::Accept => {
                out.append("accept");
            },
            Verdict::Drop => {
                out.append("counter drop");
            },
            Verdict::Return => {
                out.append("return");
            },
            Verdict::Redirect(port) => {
                out.append("redirect to :");
                out.append(text::decimal(port as u128).as_str());
            },
        }
        out.append("\n");
        assert(out@ == before + self.text());
    }
}

/// The lines of rules, in order.
pub open spec fn rules_text(rules: Seq<Rule>) -> Seq<char>
    decreases rules.len(),
{
    if rules.len() == 0 {
        seq![]
    } else {
        rules_text(rules.drop_last()) + rules.last().text()
    }
}

/// The first two lines of a chain.
pub open spec fn hook_text(hook: Hook) -> Seq<char> {
    match hook {
        Hook::FilterOutput => "\tchain output {\n\t\ttype filter hook output priority 0; policy accept;\n"@,
        Hook::NatOutput => "\tchain output {\n\t\ttype nat hook output priority -100; policy accept;\n"@,
        Hook::NatPrerouting => "\tchain prerouting {\n\t\ttype nat hook prerouting priority -100; policy accept;\n"@,
    }
}

/// A chain as it is written in a table.
pub open spec fn chain_text(hook: Hook, rules: Seq<Rule>) -> Seq<char> {
    hook_text(hook) + rules_text(rules) + "\t}\n"@
}

/// The first line of a table's definition.
pub open spec fn table_header(table: Seq<char>) -> Seq<char> {
    "table inet "@ + table + " {\n"@
}

/// A script that removes a table.
pub open spec fn delete_text(table: Seq<char>) -> Seq<char> {
    "delete table inet "@ + table + "\n"@
}

/// Begins the definition of a table.
pub fn open_table(table: &str) -> (s: String)
    ensures
        s@ == table_header(table@),
{
    let mut s = "table inet ".to_owned();
    s.append(table);
    s.append(" {\n");
    s
}

/// Appends a chain to a table's definition.
pub fn write_chain(out: &mut String, hook: Hook, rules: &Vec<Rule>)
    ensures
        final(out)@ == old(out)@ + chain_text(hook, rules@),
{
    let ghost before = out@;
    match hook {
        Hook::FilterOutput => {
            out.append(
                "\tchain output {\n\t\ttype filter hook output priority 0; policy accept;\n",
            );
        },
        Hook::NatOutput => {
            out.append("\tchain output {\n\t\ttype nat hook output priority -100; policy accept;\n");
        },
        Hook::NatPrerouting => {
            out.append(
                "\tchain prerouting {\n\t\ttype nat hook prerouting priority -100; policy accept;\n",
            );
        },
    }
    let ghost head = before + hook_text(hook);
    let mut i: usize = 0;
    while i < rules.len()
        invariant
            i <= rules@.len(),
            out@ == head + rules_text(rules@.take(i as int)),
        decreases rules@.len() - i,
    {
        rules[i].write(out);
        proof {
            assert(rules@.take(i + 1).drop_last() == rules@.take(i as int));
            assert(out@ == head + rules_text(rules@.take(i + 1)));
        }
        i = i + 1;
    }
    out.append("\t}\n");
    assert(rules@.take(i as int) == rules@);
    assert(out@ == before + chain_text(hook, rules@));
}

/// A script that removes a table.
pub fn delete_script(table: &str) -> (s: String)
    ensures
        s@ == delete_text(table@),
{
    let mut s = "delete table inet ".to_owned();
    s.append(table);
    s.append("\n");
    s
}

// ---------------------------------------------------------------------------
// What rules do.
// ---------------------------------------------------------------------------
/// A transport protocol.
pub enum Protocol {
    /// TCP.
    Tcp,
    /// UDP.
    Udp,
    /// Any other.
    Other,
}

/// What the rules see of a packet.
pub struct Packet {
    /// The user whose process sends it, if a local process does.
    pub owner: Option<u32>,
    /// Whether it leaves through the loopback interface.
    pub out_loopback: bool,
    /// Its destination.
    pub dst: IpAddress,
    /// Its protocol.
    pub protocol: Protocol,
    /// The destination port, if it has one.
    pub port: u16,
}

/// How many values of an octet share its first `bits` bits.
pub open spec fn octet_span(bits: int) -> nat {
    if bits <= 0 {
        256
    } else if bits == 1 {
        128
    } else if bits == 2 {
        64
    } else if bits == 3 {
        32
    } else if bits == 4 {
        16
    } else if bits == 5 {
        8
    } else if bits == 6 {
        4
    } else if bits == 7 {
        2
    } else {
        1
    }
}

/// Whether an address is in the network `net/prefix`: the first `prefix` bits
/// are the same.
pub open spec fn in_network(addr: Seq<u8>, net: Seq<u8>, prefix: int) -> bool {
    &&& addr.len() == net.len()
    &&& forall|i: int|
        0 <= i < net.len() ==> (#[trigger] addr[i]) as nat / octet_span(prefix - 8 * i)
            == net[i] as nat / octet_span(prefix - 8 * i)
}

/// The octets of `::1`.
pub open spec fn localhost6() -> Seq<u8> {
    Seq::new(
        16,
        |i: int|
            if i == 15 {
                1u8
            } else {
                0u8
            },
    )
}

/// Whether an address is in the set: in one of its networks.
pub open spec fn in_set(set: AddressSet, addr: IpAddress) -> bool {
    exists|i: int| 0 <= i < set.networks().len() && (#[trigger] set.networks()[i]).has(addr)
}

/// Whether a rule matches a packet.
pub open spec fn rule_matches(rule: Rule, p: Packet) -> bool {
    &&& (rule.owner is Some ==> p.owner == rule.owner)
    &&& match rule.condition {
        Condition::Always => true,
        Condition::OutLoopback => p.out_loopback,
        Condition::To(set) => in_set(set, p.dst),
        Condition::TcpPort(port) => p.protocol is Tcp && p.port == port,
        Condition::UdpPort(port) => p.protocol is Udp && p.port == port,
        Condition::Tcp => p.protocol is Tcp,
    }
}

/// What a chain does with a packet: the verdict of its first rule that
/// matches, else its policy, accept.
pub open spec fn chain_verdict(rules: Seq<Rule>, p: Packet) -> Verdict
    decreases rules.len(),
{
    if rules.len() == 0 {
        Verdict::Accept
    } else if rule_matches(rules[0], p) {
        rules[0].verdict
    } else {
        chain_verdict(rules.drop_first(), p)
    }
}

/// The local destinations, in octets: IPv4 loopback (127.0.0.0 to
/// 127.255.255.255) and private ranges, and IPv6 loopback, unique-local and
/// link-local.
pub open spec fn is_local(addr: IpAddress) -> bool {
    let o = addr.octets();
    match addr {
        IpAddress::V4(_) => o[0] == 127 || o[0] == 10 || (o[0] == 172 && 16 <= o[1] <= 31) || (o[0]
            == 192 && o[1] == 168),
        IpAddress::V6(_) => o == localhost6() || o[0] == 252 || o[0] == 253 || (o[0] == 254 && 128
            <= o[1] <= 191),
    }
}

/// `127.0.0.1` or `::1`.
pub open spec fn is_localhost(addr: IpAddress) -> bool {
    match addr {
        IpAddress::V4(o) => o@ == seq![127u8, 0u8, 0u8, 1u8],
        IpAddress::V6(o) => o@ == localhost6(),
    }
}

/// What an IPv4 network asks, octet by octet.
proof fn four_octets(a: u8, b: u8, c: u8, d: u8, prefix: u8, addr: IpAddress)
    ensures
        network4(a, b, c, d, prefix).has(addr) == (addr is V4 && addr.octets()[0] as nat
            / octet_span(prefix as int) == a as nat / octet_span(prefix as int)
            && addr.octets()[1] as nat / octet_span(prefix - 8) == b as nat / octet_span(prefix - 8)
            && addr.octets()[2] as nat / octet_span(prefix - 16) == c as nat / octet_span(
            prefix - 16,
        ) && addr.octets()[3] as nat / octet_span(prefix - 24) == d as nat / octet_span(
            prefix - 24,
        )),
{
    let n = network4(a, b, c, d, prefix);
    let net = n.address.octets();
    let o = addr.octets();
    assert(net[0] == a && net[1] == b && net[2] == c && net[3] == d);
    assert(octet_span(prefix - 8 * 0) == octet_span(prefix as int));
    assert(octet_span(prefix - 8 * 1) == octet_span(prefix - 8));
    assert(octet_span(prefix - 8 * 2) == octet_span(prefix - 16));
    assert(octet_span(prefix - 8 * 3) == octet_span(prefix - 24));
    if addr is V4 && in_network(o, net, prefix as int) {
        assert(o[0] as nat / octet_span(prefix - 8 * 0) == net[0] as nat / octet_span(
            prefix - 8 * 0,
        ));
        assert(o[1] as nat / octet_span(prefix - 8 * 1) == net[1] as nat / octet_span(
            prefix - 8 * 1,
        ));
        assert(o[2] as nat / octet_span(prefix - 8 * 2) == net[2] as nat / octet_span(
            prefix - 8 * 2,
        ));
        assert(o[3] as nat / octet_span(prefix - 8 * 3) == net[3] as nat / octet_span(
            prefix - 8 * 3,
        ));
    }
}

/// What an IPv6 network of at most 16 bits asks.
proof fn two_octets(a: u8, b: u8, prefix: u8, addr: IpAddress)
    requires
        prefix <= 16,
    ensures
        network6(a, b, 0, prefix).has(addr) == (addr is V6 && addr.octets()[0] as nat / octet_span(
            prefix as int,
        ) == a as nat / octet_span(prefix as int) && addr.octets()[1] as nat / octet_span(
            prefix - 8,
        ) == b as nat / octet_span(prefix - 8)),
{
    let n = network6(a, b, 0, prefix);
    let net = n.address.octets();
    let o = addr.octets();
    assert(net[0] == a && net[1] == b);
    assert(octet_span(prefix - 8 * 0) == octet_span(prefix as int));
    assert(octet_span(prefix - 8 * 1) == octet_span(prefix - 8));
    if addr is V6 {
        assert forall|i: int| 2 <= i < 16 implies (#[trigger] o[i]) as nat / octet_span(
            prefix - 8 * i,
        ) == net[i] as nat / octet_span(prefix - 8 * i) by {
            assert(octet_span(prefix - 8 * i) == 256);
        }
        if in_network(o, net, prefix as int) {
            assert(o[0] as nat / octet_span(prefix - 8 * 0) == net[0] as nat / octet_span(
                prefix - 8 * 0,
            ));
            assert(o[1] as nat / octet_span(prefix - 8 * 1) == net[1] as nat / octet_span(
                prefix - 8 * 1,
            ));
        }
    }
}

/// What a network of one IPv6 address asks.
proof fn one_address6(addr: IpAddress)
    ensures
        network6(0, 0, 1, 128).has(addr) == (addr is V6 && addr.octets() == localhost6()),
{
    let net = network6(0, 0, 1, 128).address.octets();
    let o = addr.octets();
    assert(net =~= localhost6());
    if addr is V6 && in_network(o, net, 128) {
        assert forall|i: int| 0 <= i < 16 implies o[i] == net[i] by {
            assert(octet_span(128 - 8 * i) == 1);
        }
        assert(o =~= net);
    }
}

/// The two local sets hold exactly the local destinations, and the two
/// localhost sets exactly the localhost addresses.
pub proof fn local_sets_are_local(addr: IpAddress)
    ensures
        (in_set(AddressSet::Local4, addr) || in_set(AddressSet::Local6, addr)) == is_local(addr),
        (in_set(AddressSet::Localhost4, addr) || in_set(AddressSet::Localhost6, addr))
            == is_localhost(addr),
{
    let o = addr.octets();
    four_octets(127, 0, 0, 1, 32, addr);
    four_octets(127, 0, 0, 0, 8, addr);
    four_octets(10, 0, 0, 0, 8, addr);
    four_octets(172, 16, 0, 0, 12, addr);
    four_octets(192, 168, 0, 0, 16, addr);
    two_octets(252, 0, 7, addr);
    two_octets(254, 128, 10, addr);
    one_address6(addr);
    let l4 = AddressSet::Local4.networks();
    let l6 = AddressSet::Local6.networks();
    let h4 = AddressSet::Localhost4.networks();
    let h6 = AddressSet::Localhost6.networks();
    assert(in_set(AddressSet::Local4, addr) == (l4[0].has(addr) || l4[1].has(addr) || l4[2].has(
        addr,
    ) || l4[3].has(addr)));
    assert(in_set(AddressSet::Local6, addr) == (l6[0].has(addr) || l6[1].has(addr) || l6[2].has(
        addr,
    )));
    assert(in_set(AddressSet::Localhost4, addr) == h4[0].has(addr));
    assert(in_set(AddressSet::Localhost6, addr) == h6[0].has(addr));
    if addr is V4 {
        assert((o[1] as nat / 16 == 1) == (16 <= o[1] <= 31));
        if o[0] == 127 && o[1] == 0 && o[2] == 0 && o[3] == 1 {
            assert(o =~= seq![127u8, 0u8, 0u8, 1u8]);
        }
    } else {
        assert((o[0] as nat / 2 == 126) == (o[0] == 252 || o[0] == 253));
        assert((o[1] as nat / 64 == 2) == (128 <= o[1] <= 191));
    }
}

// ---------------------------------------------------------------------------
// How `nft` answers.
// ---------------------------------------------------------------------------
/// What `nft` says of a table that does not exist.
pub open spec fn absent_table_text() -> Seq<char> {
    "No such file or directory"@
}

/// A failed action, with what it was meant to do.
#[derive(Debug)]
pub struct NftError {
    /// What was meant to be done.
    pub context: String,
    /// What went wrong.
    pub cause: String,
}

/// How running a script went.
#[derive(Debug)]
pub enum ScriptRun {
    /// `nft` could not be launched.
    NotSpawned,
    /// The script could not be handed to it.
    NotFed,
    /// It could not be waited for.
    NotAwaited,
    /// It exited: whether with success, its status and what it printed.
    Exited { success: bool, status: String, stderr: String },
}

/// The outcome of a script, from how `nft` exited and what it printed.
pub open spec fn script_outcome(success: bool, status: Seq<char>, stderr: Seq<char>) -> Result<
    (),
    Seq<char>,
> {
    if success {
        Ok(())
    } else {
        Err("nft failed ("@ + status + "): "@ + text::trim_text(stderr))
    }
}

/// The outcome of a script, from how running it went.
pub open spec fn run_outcome(run: ScriptRun) -> Result<(), Seq<char>> {
    match run {
        ScriptRun::NotSpawned => Err("failed to spawn `nft` (is nftables installed?)"@),
        ScriptRun::NotFed => Err("failed to write ruleset to `nft` stdin"@),
        ScriptRun::NotAwaited => Err("failed waiting for `nft` to exit"@),
        ScriptRun::Exited { success, status, stderr } => script_outcome(success, status@, stderr@),
    }
}

/// The run of a script that ended with `nft` exiting, from the bytes that it
/// printed.
pub fn exited(success: bool, status: String, stderr: &[u8]) -> (run: ScriptRun)
    ensures
        run matches ScriptRun::Exited { success: s, status: st, stderr: e } && s == success && st
            == status && e@ == text::lossy_text(stderr@),
{
    ScriptRun::Exited { success, status, stderr: text::lossy(stderr) }
}

/// The outcome of a script, from how running it went.
pub fn run_result(run: &ScriptRun) -> (res: Result<(), String>)
    ensures
        match res {
            Ok(_) => run_outcome(*run) is Ok,
            Err(e) => run_outcome(*run) == Err::<(), Seq<char>>(e@),
        },
{
    match run {
        ScriptRun::NotSpawned => Err("failed to spawn `nft` (is nftables installed?)".to_owned()),
        ScriptRun::NotFed => Err("failed to write ruleset to `nft` stdin".to_owned()),
        ScriptRun::NotAwaited => Err("failed waiting for `nft` to exit".to_owned()),
        ScriptRun::Exited { success, status, stderr } => {
            if *success {
                Ok(())
            } else {
                let mut e = "nft failed (".to_owned();
                e.append(status.as_str());
                e.append("): ");
                e.append(text::trim(stderr.as_str()).as_str());
                Err(e)
            }
        },
    }
}

/// Whether a table exists, from how `nft list table` exited and what it
/// printed. That it could not tell is an error, not an absent table.
pub open spec fn table_status(success: bool, stderr: Seq<char>) -> Result<bool, Seq<char>> {
    if success {
        Ok(true)
    } else if text::has_text(stderr, absent_table_text()) {
        Ok(false)
    } else {
        Err("nft could not report table status: "@ + text::trim_text(stderr))
    }
}

/// Reads whether a table exists from what `nft list table` printed, as text.
pub fn is_table_present_of(success: bool, stderr: &str) -> (res: Result<bool, String>)
    ensures
        match res {
            Ok(b) => table_status(success, stderr@) == Ok::<bool, Seq<char>>(b),
            Err(e) => table_status(success, stderr@) == Err::<bool, Seq<char>>(e@),
        },
{
    if success {
        Ok(true)
    } else if text::contains(stderr, "No such file or directory") {
        Ok(false)
    } else {
        let mut e = "nft could not report table status: ".to_owned();
        e.append(text::trim(stderr).as_str());
        Err(e)
    }
}

/// Reads whether a table exists from the bytes that `nft list table` printed.
pub fn is_table_present(success: bool, stderr: &[u8]) -> (res: Result<bool, String>)
    ensures
        match res {
            Ok(b) => table_status(success, text::lossy_text(stderr@)) == Ok::<bool, Seq<char>>(b),
            Err(e) => table_status(success, text::lossy_text(stderr@)) == Err::<bool, Seq<char>>(
                e@,
            ),
        },
{
    is_table_present_of(success, text::lossy(stderr).as_str())
}

/// Whether running a removal script has left its table removed: `nft` ran, and
/// succeeded or printed that there is no such table.
pub open spec fn removed(run: ScriptRun) -> bool {
    run matches ScriptRun::Exited { success, stderr, .. } && (success || text::has_text(
        stderr@,
        absent_table_text(),
    ))
}

/// Whether running a removal script has left its table removed.
pub fn is_removed(run: &ScriptRun) -> (r: bool)
    ensures
        r == removed(*run),
{
    match run {
        ScriptRun::Exited { success, stderr, .. } => *success || text::contains(
            stderr.as_str(),
            "No such file or directory",
        ),
        _ => false,
    }
}

/// Whether an outcome is a success, or its message says that there is no such
/// table.
pub open spec fn says_removed(outcome: Result<(), Seq<char>>) -> bool {
    match outcome {
        Ok(_) => true,
        Err(e) => text::has_text(e, absent_table_text()),
    }
}

/// The text on an absent table begins and ends with a letter, and holds neither
/// bracket nor colon.
proof fn absent_text_is_plain()
    ensures
        absent_table_text().len() == 25,
        absent_table_text()[0] == 'N',
        absent_table_text().last() == 'y',
        forall|j: int|
            0 <= j < 25 ==> (#[trigger] absent_table_text()[j]) != '(' && absent_table_text()[j]
                != ')' && absent_table_text()[j] != ':',
{
    reveal_strlit("No such file or directory");
}

proof fn absence_shows_in_the_text(status: Seq<char>, stderr: Seq<char>)
    ensures
        text::has_text(stderr, absent_table_text()) ==> says_removed(
            script_outcome(false, status, stderr),
        ),
        !text::has_text(status, absent_table_text()) && says_removed(
            script_outcome(false, status, stderr),
        ) ==> text::has_text(stderr, absent_table_text()),
{
    let needle = absent_table_text();
    absent_text_is_plain();
    text::trimming_keeps_text(stderr, needle);
    reveal_strlit("nft failed (");
    reveal_strlit("): ");
    let open = "nft failed ("@;
    let close = "): "@;
    let last = text::trim_text(stderr);
    let all = open + status + close + last;
    if text::has_text(last, needle) {
        text::suffix_text_is_found(open + status + close, last, needle);
    }
    if text::has_text(all, needle) && !text::has_text(status, needle) {
        let i = choose|i: int| text::occurs_at(all, needle, i);
        let found = all.subrange(i, i + 25);
        let n = status.len() as int;
        assert(all[11] == '(' && all[12 + n] == ')' && all[13 + n] == ':' && all[14 + n] == ' ');
        assert forall|k: int| i <= k < i + 25 implies all[k] == #[trigger] needle[k - i] by {
            assert(found[k - i] == all[k]);
        }
        if i <= 11 {
            assert(needle[11 - i] == '(');
        } else if i + 25 <= 12 + n {
            assert(status.subrange(i - 12, i + 13) == found);
            assert(text::occurs_at(status, needle, i - 12));
        } else if i <= 12 + n {
            assert(needle[12 + n - i] == ')');
        } else if i <= 13 + n {
            assert(needle[13 + n - i] == ':');
        } else if i == 14 + n {
            assert(needle[0] == ' ');
        } else {
            assert(last.subrange(i - 15 - n, i + 10 - n) == found);
            assert(text::occurs_at(last, needle, i - 15 - n));
        }
    }
}

/// A text without an `N` does not hold the text on an absent table.
proof fn no_capital_no_absence(s: Seq<char>)
    requires
        forall|i: int| 0 <= i < s.len() ==> (#[trigger] s[i]) != 'N',
    ensures
        !text::has_text(s, absent_table_text()),
{
    absent_text_is_plain();
    if text::has_text(s, absent_table_text()) {
        let i = choose|i: int| text::occurs_at(s, absent_table_text(), i);
        assert(s.subrange(i, i + 25)[0] == s[i]);
    }
}

/// What the message of a failed removal says agrees with what came of it: it
/// speaks of an absent table exactly if the table is removed, for every exit
/// status that does not itself speak of one.
pub proof fn message_agrees_with_removal(run: ScriptRun)
    requires
        run matches ScriptRun::Exited { status, .. } ==> !text::has_text(
            status@,
            absent_table_text(),
        ),
    ensures
        says_removed(run_outcome(run)) == removed(run),
{
    match run {
        ScriptRun::NotSpawned => {
            reveal_strlit("failed to spawn `nft` (is nftables installed?)");
            no_capital_no_absence("failed to spawn `nft` (is nftables installed?)"@);
        },
        ScriptRun::NotFed => {
            reveal_strlit("failed to write ruleset to `nft` stdin");
            no_capital_no_absence("failed to write ruleset to `nft` stdin"@);
        },
        ScriptRun::NotAwaited => {
            reveal_strlit("failed waiting for `nft` to exit");
            no_capital_no_absence("failed waiting for `nft` to exit"@);
        },
        ScriptRun::Exited { status, stderr, .. } => {
            absence_shows_in_the_text(status@, stderr@);
        },
    }
}

/// A removal script is about one table: those of two tables differ.
pub proof fn removal_scripts_differ(a: Seq<char>, b: Seq<char>)
    requires
        delete_text(a) == delete_text(b),
    ensures
        a == b,
{
    let head = "delete table inet "@;
    let tail = "\n"@;
    let n = head.len() as int;
    let x = delete_text(a);
    let y = delete_text(b);
    assert(x.len() == n + a.len() + tail.len());
    assert(y.len() == n + b.len() + tail.len());
    assert(x.subrange(n, n + a.len()) == a);
    assert(y.subrange(n, n + b.len()) == b);
}

} // verus!
