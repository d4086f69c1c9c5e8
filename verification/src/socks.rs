//! A SOCKS5 front end (RFC 1928), CONNECT only, with optional
//! username/password authentication (RFC 1929) whose username is only an
//! isolation key.
//!
//! The parsers work on the bytes that were read so far and say how many more
//! to read. They never ask for a byte beyond the message.
use crate::net::IpAddress;
use crate::policy::{Destination, LeakPolicy, LeakViolation};
use crate::text;
use vstd::prelude::*;
use vstd::string::*;

verus! {

/// The protocol version.
pub const SOCKS_VERSION: u8 = 5;

/// Version of the username/password negotiation.
pub const AUTH_VERSION: u8 = 1;

/// Method: no authentication.
pub const METHOD_NO_AUTH: u8 = 0;

/// Method: username and password.
pub const METHOD_USER_PASS: u8 = 2;

/// No offered method is acceptable.
pub const METHOD_NONE_ACCEPTABLE: u8 = 255;

/// The CONNECT command.
pub const CMD_CONNECT: u8 = 1;

/// Address type: IPv4.
pub const ATYP_IPV4: u8 = 1;

/// Address type: domain name.
pub const ATYP_DOMAIN: u8 = 3;

/// Address type: IPv6.
pub const ATYP_IPV6: u8 = 4;

/// Reply: succeeded.
pub const REP_SUCCESS: u8 = 0;

/// Reply: general failure.
pub const REP_GENERAL_FAILURE: u8 = 1;

/// Reply: command not supported.
pub const REP_CMD_NOT_SUPPORTED: u8 = 7;

/// Reply: address type not supported.
pub const REP_ATYP_NOT_SUPPORTED: u8 = 8;

/// Why a session ends.
#[derive(Debug)]
pub enum SocksError {
    /// The greeting is of another version.
    Version(u8),
    /// The client offers no method that is accepted.
    NoAcceptableMethod,
    /// The credentials are of another version.
    AuthVersion(u8),
    /// The request is of another version.
    RequestVersion(u8),
    /// The request is not CONNECT.
    Command(u8),
    /// The request's address type is unknown.
    AddressType(u8),
    /// The domain name is not UTF-8.
    HostNotUtf8,
}

impl SocksError {
    /// A one-line description.
    pub open spec fn text(self) -> Seq<char> {
        match self {
            SocksError::Version(v) => "unsupported SOCKS version "@ + text::decimal_text(v as nat),
            SocksError::NoAcceptableMethod => "client offered no acceptable auth method"@,
            SocksError::AuthVersion(v) => "unsupported auth version "@ + text::decimal_text(
                v as nat,
            ),
            SocksError::RequestVersion(v) => "unsupported SOCKS version "@ + text::decimal_text(
                v as nat,
            ) + " in request"@,
            SocksError::Command(c) => "only CONNECT is supported (got cmd "@ + text::decimal_text(
                c as nat,
            ) + ")"@,
            SocksError::AddressType(t) => "unsupported address type "@ + text::decimal_text(
                t as nat,
            ),
            SocksError::HostNotUtf8 => "domain name was not valid UTF-8"@,
        }
    }

    /// A one-line description.
    pub fn message(&self) -> (s: String)
        ensures
            s@ == self.text(),
    {
        match self {
            SocksError::Version(v) => {
                let mut s = "unsupported SOCKS version ".to_owned();
                s.append(text::decimal(*v as u128).as_str());
                s
            },
            SocksError::NoAcceptableMethod => "client offered no acceptable auth method".to_owned(),
            SocksError::AuthVersion(v) => {
                let mut s = "unsupported auth version ".to_owned();
                s.append(text::decimal(*v as u128).as_str());
                s
            },
            SocksError::RequestVersion(v) => {
                let mut s = "unsupported SOCKS version ".to_owned();
                s.append(text::decimal(*v as u128).as_str());
                s.append(" in request");
                s
            },
            SocksError::Command(c) => {
                let mut s = "only CONNECT is supported (got cmd ".to_owned();
                s.append(text::decimal(*c as u128).as_str());
                s.append(")");
                s
            },
            SocksError::AddressType(t) => {
                let mut s = "unsupported address type ".to_owned();
                s.append(text::decimal(*t as u128).as_str());
                s
            },
            SocksError::HostNotUtf8 => "domain name was not valid UTF-8".to_owned(),
        }
    }
}

// ---------------------------------------------------------------------------
// Method negotiation.
// ---------------------------------------------------------------------------
/// What the bytes of a greeting say so far.
#[derive(Debug)]
pub enum GreetingParse {
    /// Read this many more bytes.
    More(usize),
    /// End the session.
    Refused(SocksError),
    /// The methods that the client offers.
    Methods(Vec<u8>),
}

impl GreetingParse {
    /// Whether this is the outcome of reading `buf`.
    pub open spec fn reads(self, buf: Seq<u8>) -> bool {
        if buf.len() < 2 {
            self matches GreetingParse::More(n) && n == 2 - buf.len()
        } else if buf[0] != SOCKS_VERSION {
            self == GreetingParse::Refused(SocksError::Version(buf[0]))
        } else if buf.len() < 2 + buf[1] {
            self matches GreetingParse::More(n) && n == 2 + buf[1] - buf.len()
        } else {
            self matches GreetingParse::Methods(m) && m@ == buf.subrange(2, 2 + buf[1])
        }
    }
}

/// Parses the client's greeting.
pub fn parse_greeting(buf: &[u8]) -> (r: GreetingParse)
    ensures
        r.reads(buf@),
{
    let len: usize = buf.len();
    if len < 2 {
        return GreetingParse::More(2 - len);
    }
    if buf[0] != SOCKS_VERSION {
        return GreetingParse::Refused(SocksError::Version(buf[0]));
    }
    let total: usize = 2 + buf[1] as usize;
    if len < total {
        return GreetingParse::More(total - len);
    }
    GreetingParse::Methods(vstd::slice::slice_to_vec(vstd::slice::slice_subrange(buf, 2, total)))
}

/// How a client authenticates.
#[derive(Debug, Clone, Copy, PartialEq, Eq, Structural)]
pub enum AuthMethod {
    /// Not at all.
    NoAuth,
    /// With a username and a password.
    UserPass,
}

/// The method for the offered ones: username and password if offered (the
/// username is the isolation key), else none at all, else no session.
pub open spec fn chosen_method(methods: Seq<u8>) -> Option<AuthMethod> {
    if methods.contains(METHOD_USER_PASS) {
        Some(AuthMethod::UserPass)
    } else if methods.contains(METHOD_NO_AUTH) {
        Some(AuthMethod::NoAuth)
    } else {
        None
    }
}

fn offers(methods: &Vec<u8>, method: u8) -> (r: bool)
    ensures
        r == methods@.contains(method),
{
    let mut i: usize = 0;
    while i < methods.len()
        invariant
            i <= methods@.len(),
            forall|j: int| 0 <= j < i ==> methods@[j] != method,
        decreases methods@.len() - i,
    {
        if methods[i] == method {
            return true;
        }
        i = i + 1;
    }
    false
}

/// Chooses among the offered methods.
pub fn negotiate_method(methods: &Vec<u8>) -> (m: Option<AuthMethod>)
    ensures
        m == chosen_method(methods@),
{
    if offers(methods, METHOD_USER_PASS) {
        Some(AuthMethod::UserPass)
    } else if offers(methods, METHOD_NO_AUTH) {
        Some(AuthMethod::NoAuth)
    } else {
        None
    }
}

/// The answer to a greeting.
pub open spec fn method_reply_bytes(method: Option<AuthMethod>) -> Seq<u8> {
    seq![
        SOCKS_VERSION,
        match method {
            Some(AuthMethod::NoAuth) => METHOD_NO_AUTH,
            Some(AuthMethod::UserPass) => METHOD_USER_PASS,
            None => METHOD_NONE_ACCEPTABLE,
        },
    ]
}

/// The answer to a greeting.
pub fn method_reply(method: Option<AuthMethod>) -> (out: Vec<u8>)
    ensures
        out@ == method_reply_bytes(method),
{
    let code: u8 = match method {
        Some(AuthMethod::NoAuth) => METHOD_NO_AUTH,
        Some(AuthMethod::UserPass) => METHOD_USER_PASS,
        None => METHOD_NONE_ACCEPTABLE,
    };
    let mut out: Vec<u8> = Vec::new();
    out.push(SOCKS_VERSION);
    out.push(code);
    out
}

// ---------------------------------------------------------------------------
// Credentials.
// ---------------------------------------------------------------------------
/// What the bytes of the credentials say so far.
#[derive(Debug)]
pub enum CredentialsParse {
    /// Read this many more bytes.
    More(usize),
    /// End the session.
    Refused(SocksError),
    /// The username. Any will do, and the password is ignored.
    Username(Vec<u8>),
}

impl CredentialsParse {
    /// Whether this is the outcome of reading `buf`.
    pub open spec fn reads(self, buf: Seq<u8>) -> bool {
        let name_end = 2 + buf[1];
        let end = name_end + 1 + buf[name_end];
        if buf.len() < 2 {
            self matches CredentialsParse::More(n) && n == 2 - buf.len()
        } else if buf[0] != AUTH_VERSION {
            self == CredentialsParse::Refused(SocksError::AuthVersion(buf[0]))
        } else if buf.len() < name_end + 1 {
            self matches CredentialsParse::More(n) && n == name_end + 1 - buf.len()
        } else if buf.len() < end {
            self matches CredentialsParse::More(n) && n == end - buf.len()
        } else {
            self matches CredentialsParse::Username(u) && u@ == buf.subrange(2, name_end)
        }
    }
}

/// Parses the client's credentials.
pub fn parse_credentials(buf: &[u8]) -> (r: CredentialsParse)
    ensures
        r.reads(buf@),
{
    let len: usize = buf.len();
    if len < 2 {
        return CredentialsParse::More(2 - len);
    }
    if buf[0] != AUTH_VERSION {
        return CredentialsParse::Refused(SocksError::AuthVersion(buf[0]));
    }
    let name_end: usize = 2 + buf[1] as usize;
    if len < name_end + 1 {
        return CredentialsParse::More(name_end + 1 - len);
    }
    let end: usize = name_end + 1 + buf[name_end] as usize;
    if len < end {
        return CredentialsParse::More(end - len);
    }
    CredentialsParse::Username(
        vstd::slice::slice_to_vec(vstd::slice::slice_subrange(buf, 2, name_end)),
    )
}

/// The answer to credentials: accepted, whatever they are.
pub fn credentials_reply() -> (out: Vec<u8>)
    ensures
        out@ == seq![AUTH_VERSION, 0u8],
{
    let mut out: Vec<u8> = Vec::new();
    out.push(AUTH_VERSION);
    out.push(0);
    out
}

/// The identity under which a connection's circuits are isolated: the
/// username, or `default` without authentication.
pub open spec fn identity_of(username: Option<Seq<u8>>) -> Seq<u8> {
    match username {
        Some(u) => u,
        None => default_identity(),
    }
}

/// The identity under which a connection's circuits are isolated.
pub fn isolation_identity(username: Option<Vec<u8>>) -> (id: Vec<u8>)
    ensures
        id@ == identity_of(
            match username {
                Some(u) => Some(u@),
                None => None,
            },
        ),
{
    match username {
        Some(u) => u,
        None => {
            let mut id: Vec<u8> = Vec::new();
            id.push(100);
            id.push(101);
            id.push(102);
            id.push(97);
            id.push(117);
            id.push(108);
            id.push(116);
            id
        },
    }
}

/// The identity of connections without authentication: the bytes of `default`.
pub open spec fn default_identity() -> Seq<u8> {
    seq![100u8, 101u8, 102u8, 97u8, 117u8, 108u8, 116u8]
}

// ---------------------------------------------------------------------------
// The CONNECT request.
// ---------------------------------------------------------------------------
/// A destination as a mathematical value.
pub enum Target {
    /// A host name.
    Host(Seq<char>),
    /// An IPv4 address.
    V4(Seq<u8>),
    /// An IPv6 address.
    V6(Seq<u8>),
}

/// The mathematical value of a destination.
pub open spec fn target(dest: Destination) -> Target {
    match dest {
        Destination::Host(h) => Target::Host(h@),
        Destination::Ip(IpAddress::V4(o)) => Target::V4(o@),
        Destination::Ip(IpAddress::V6(o)) => Target::V6(o@),
    }
}

/// What the bytes of a request say so far.
#[derive(Debug)]
pub enum ConnectParse {
    /// Read this many more bytes.
    More(usize),
    /// End the session, after sending a reply with this code, if any.
    Refused { error: SocksError, reply: Option<u8> },
    /// A complete request.
    Request { dest: Destination, port: u16 },
}

/// A [`ConnectParse`] as a mathematical value.
pub enum RequestRead {
    /// Read this many more bytes.
    More(int),
    /// End the session, after sending a reply with this code, if any.
    Refused(SocksError, Option<u8>),
    /// A complete request.
    Request(Target, u16),
}

impl ConnectParse {
    /// The mathematical value.
    pub open spec fn read(self) -> RequestRead {
        match self {
            ConnectParse::More(n) => RequestRead::More(n as int),
            ConnectParse::Refused { error, reply } => RequestRead::Refused(error, reply),
            ConnectParse::Request { dest, port } => RequestRead::Request(target(dest), port),
        }
    }
}

/// The port at position `i`.
pub open spec fn port_at(buf: Seq<u8>, i: int) -> u16 {
    (buf[i] * 256 + buf[i + 1]) as u16
}

/// What a request says, from the bytes read so far.
pub open spec fn request_of(buf: Seq<u8>) -> RequestRead {
    if buf.len() < 4 {
        RequestRead::More(4 - buf.len())
    } else if buf[0] != SOCKS_VERSION {
        RequestRead::Refused(SocksError::RequestVersion(buf[0]), None)
    } else if buf[1] != CMD_CONNECT {
        RequestRead::Refused(SocksError::Command(buf[1]), Some(REP_CMD_NOT_SUPPORTED))
    } else if buf[3] == ATYP_IPV4 {
        if buf.len() < 10 {
            RequestRead::More(10 - buf.len())
        } else {
            RequestRead::Request(Target::V4(buf.subrange(4, 8)), port_at(buf, 8))
        }
    } else if buf[3] == ATYP_IPV6 {
        if buf.len() < 22 {
            RequestRead::More(22 - buf.len())
        } else {
            RequestRead::Request(Target::V6(buf.subrange(4, 20)), port_at(buf, 20))
        }
    } else if buf[3] == ATYP_DOMAIN {
        if buf.len() < 5 {
            RequestRead::More(1)
        } else {
            let end = 5 + buf[4];
            if buf.len() < end {
                RequestRead::More(end - buf.len())
            } else if !vstd::utf8::valid_utf8(buf.subrange(5, end)) {
                RequestRead::Refused(SocksError::HostNotUtf8, None)
            } else if buf.len() < end + 2 {
                RequestRead::More(end + 2 - buf.len())
            } else {
                RequestRead::Request(
                    Target::Host(vstd::utf8::decode_utf8(buf.subrange(5, end))),
                    port_at(buf, end),
                )
            }
        }
    } else {
        RequestRead::Refused(SocksError::AddressType(buf[3]), Some(REP_ATYP_NOT_SUPPORTED))
    }
}

fn read_port(buf: &[u8], i: usize) -> (p: u16)
    requires
        i + 1 < buf@.len(),
    ensures
        p == port_at(buf@, i as int),
{
    buf[i] as u16 * 256 + buf[i + 1] as u16
}

/// Parses the client's request.
pub fn read_connect_request(buf: &[u8]) -> (r: ConnectParse)
    ensures
        r.read() == request_of(buf@),
{
    let len: usize = buf.len();
    if len < 4 {
        return ConnectParse::More(4 - len);
    }
    if buf[0] != SOCKS_VERSION {
        return ConnectParse::Refused { error: SocksError::RequestVersion(buf[0]), reply: None };
    }
    if buf[1] != CMD_CONNECT {
        return ConnectParse::Refused {
            error: SocksError::Command(buf[1]),
            reply: Some(REP_CMD_NOT_SUPPORTED),
        };
    }
    let atyp: u8 = buf[3];
    if atyp == ATYP_IPV4 {
        if len < 10 {
            return ConnectParse::More(10 - len);
        }
        let octets: [u8; 4] = [buf[4], buf[5], buf[6], buf[7]];
        assert(octets@ == buf@.subrange(4, 8));
        ConnectParse::Request {
            dest: Destination::Ip(IpAddress::V4(octets)),
            port: read_port(buf, 8),
        }
    } else if atyp == ATYP_IPV6 {
        if len < 22 {
            return ConnectParse::More(22 - len);
        }
        let octets: [u8; 16] = [
            buf[4],
            buf[5],
            buf[6],
            buf[7],
            buf[8],
            buf[9],
            buf[10],
            buf[11],
            buf[12],
            buf[13],
            buf[14],
            buf[15],
            buf[16],
            buf[17],
            buf[18],
            buf[19],
        ];
        assert(octets@ == buf@.subrange(4, 20));
        ConnectParse::Request {
            dest: Destination::Ip(IpAddress::V6(octets)),
            port: read_port(buf, 20),
        }
    } else if atyp == ATYP_DOMAIN {
        if len < 5 {
            return ConnectParse::More(1);
        }
        let end: usize = 5 + buf[4] as usize;
        if len < end {
            return ConnectParse::More(end - len);
        }
        let name = vstd::slice::slice_to_vec(vstd::slice::slice_subrange(buf, 5, end));
        match text::utf8(name) {
            None => ConnectParse::Refused { error: SocksError::HostNotUtf8, reply: None },
            Some(host) => {
                if len < end + 2 {
                    return ConnectParse::More(end + 2 - len);
                }
                ConnectParse::Request { dest: Destination::Host(host), port: read_port(buf, end) }
            },
        }
    } else {
        ConnectParse::Refused {
            error: SocksError::AddressType(atyp),
            reply: Some(REP_ATYP_NOT_SUPPORTED),
        }
    }
}

/// The address part of a request on the wire: the address type, and the
/// address (a host name after its length).
pub open spec fn address_bytes(t: Target) -> Seq<u8> {
    match t {
        Target::V4(o) => seq![ATYP_IPV4] + o,
        Target::V6(o) => seq![ATYP_IPV6] + o,
        Target::Host(h) => {
            let name = vstd::utf8::encode_utf8(h);
            seq![ATYP_DOMAIN, name.len() as u8] + name
        },
    }
}

/// Whether the destination can be written in a request.
pub open spec fn writable(t: Target) -> bool {
    match t {
        Target::V4(o) => o.len() == 4,
        Target::V6(o) => o.len() == 16,
        Target::Host(h) => vstd::utf8::encode_utf8(h).len() < 256,
    }
}

/// A CONNECT request on the wire.
pub open spec fn request_bytes(t: Target, port: u16) -> Seq<u8> {
    seq![SOCKS_VERSION, CMD_CONNECT, 0u8] + address_bytes(t) + seq![
        (port / 256) as u8,
        (port % 256) as u8,
    ]
}

/// Every destination and port that a request can carry is read back from it.
pub proof fn request_reads_back(t: Target, port: u16)
    requires
        writable(t),
    ensures
        request_of(request_bytes(t, port)) == RequestRead::Request(t, port),
{
    let buf = request_bytes(t, port);
    let addr = address_bytes(t);
    assert(buf[3] == addr[0]);
    match t {
        Target::V4(o) => {
            assert(buf.subrange(4, 8) == o);
        },
        Target::V6(o) => {
            assert(buf.subrange(4, 20) == o);
        },
        Target::Host(h) => {
            let name = vstd::utf8::encode_utf8(h);
            assert(buf[4] == addr[1]);
            assert(buf.subrange(5, 5 + name.len() as int) == name);
            vstd::utf8::encode_utf8_valid_utf8(h);
            vstd::utf8::encode_utf8_decode_utf8(h);
        },
    }
}

/// While a request arrives, the parser asks for more bytes, at least one and
/// never more than the request still has.
pub proof fn request_is_never_overread(t: Target, port: u16, n: int)
    requires
        writable(t),
        0 <= n < request_bytes(t, port).len(),
    ensures
        request_of(request_bytes(t, port).take(n)) matches RequestRead::More(k) && 0 < k
            <= request_bytes(t, port).len() - n,
{
    let all = request_bytes(t, port);
    let buf = all.take(n);
    let addr = address_bytes(t);
    assert(all[3] == addr[0]);
    if let Target::Host(h) = t {
        let name = vstd::utf8::encode_utf8(h);
        assert(all[4] == addr[1]);
        if n >= 5 + name.len() {
            assert(buf.subrange(5, 5 + name.len() as int) == name);
            vstd::utf8::encode_utf8_valid_utf8(h);
        }
    }
}

/// The wire form of a reply. The bound address is unused: a circuit has no
/// stable local address, so `0.0.0.0:0` is reported.
pub open spec fn reply_bytes(rep: u8) -> Seq<u8> {
    seq![SOCKS_VERSION, rep, 0u8, ATYP_IPV4, 0u8, 0u8, 0u8, 0u8, 0u8, 0u8]
}

/// The wire form of a reply.
pub fn reply(rep: u8) -> (out: Vec<u8>)
    ensures
        out@ == reply_bytes(rep),
{
    let mut out: Vec<u8> = Vec::new();
    out.push(SOCKS_VERSION);
    out.push(rep);
    out.push(0);
    out.push(ATYP_IPV4);
    out.push(0);
    out.push(0);
    out.push(0);
    out.push(0);
    out.push(0);
    out.push(0);
    out
}

/// The host to connect to through Tor for a destination that is let through.
pub open spec fn connect_host(dest: Destination) -> Seq<char> {
    match dest {
        Destination::Host(h) => h@,
        Destination::Ip(ip) => ip.text(),
    }
}

/// A request that the leak policy refuses.
#[derive(Debug)]
pub struct Refusal {
    /// Why.
    pub violation: LeakViolation,
    /// What the client is answered.
    pub answer: Vec<u8>,
}

/// What comes of holding a request against the leak policy: the host to connect
/// to, or the violation, which is answered with a general failure.
pub open spec fn screened(policy: LeakPolicy, dest: Destination) -> Result<
    Seq<char>,
    (LeakViolation, Seq<u8>),
> {
    match policy.verdict(dest) {
        Ok(_) => Ok(connect_host(dest)),
        Err(v) => Err((v, reply_bytes(REP_GENERAL_FAILURE))),
    }
}

/// Holds a request against the leak policy.
pub fn screen(policy: &LeakPolicy, dest: &Destination) -> (res: Result<String, Refusal>)
    ensures
        match screened(*policy, *dest) {
            Ok(host) => res matches Ok(h) && h@ == host,
            Err((v, answer)) => res matches Err(r) && r.violation == v && r.answer@ == answer,
        },
{
    match policy.check(dest) {
        Err(violation) => Err(Refusal { violation, answer: reply(REP_GENERAL_FAILURE) }),
        Ok(_) => match dest {
            Destination::Host(h) => Ok(h.clone()),
            Destination::Ip(ip) => Ok(ip.to_text()),
        },
    }
}

/// The reply code once the connection through Tor was tried.
pub open spec fn connect_code(connected: bool) -> u8 {
    if connected {
        REP_SUCCESS
    } else {
        REP_GENERAL_FAILURE
    }
}

/// The reply code once the connection through Tor was tried.
pub fn connect_reply_code(connected: bool) -> (rep: u8)
    ensures
        rep == connect_code(connected),
{
    if connected {
        REP_SUCCESS
    } else {
        REP_GENERAL_FAILURE
    }
}

/// Under a policy that does not allow raw addresses, a request that names one
/// is refused, and one that names a host is let through with that very name:
/// nothing resolved locally ever reaches the network.
pub proof fn strict_policy_stops_raw_addresses(policy: LeakPolicy, dest: Destination)
    requires
        !policy.allows_raw_ip(),
    ensures
        policy.verdict(dest) is Ok <==> dest is Host,
{
}

/// A refused request is answered exactly if its command or its address type is
/// the reason, with the reply code for that.
pub proof fn refused_requests_are_answered(buf: Seq<u8>)
    requires
        request_of(buf) is Refused,
    ensures
        match request_of(buf)->Refused_0 {
            SocksError::Command(_) => request_of(buf)->Refused_1 == Some(REP_CMD_NOT_SUPPORTED),
            SocksError::AddressType(_) => request_of(buf)->Refused_1 == Some(
                REP_ATYP_NOT_SUPPORTED,
            ),
            _ => request_of(buf)->Refused_1 is None,
        },
{
}

} // verus!
